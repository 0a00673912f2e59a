//! Finding an image for a name: the search address, the image link in the
//! search page, and the retry loop that searches, downloads and re-uploads.

use crate::fetch::{failure_text, page_text, utf8_lossy, FetchFailure};
use crate::text::{chars_of, free_of, has_prefix, has_suffix, is_decimal_digit, decimal_digit, ends_with, occurs_at_index, string_of};
use vstd::prelude::*;
use vstd::utf8::encode_utf8;

pub mod laws;

verus! {

/// An image found for a query: where it is served from and the page it was
/// found on.
#[derive(Debug, Clone, PartialEq, Eq)]
pub struct ImageTarget {
    pub img_url: String,
    pub page_url: String,
}

// ---------------------------------------------------------------------------
// The search address
// ---------------------------------------------------------------------------

/// The bytes that percent-encoding escapes: the C0 controls, DEL and every
/// non-ASCII byte, and also space, `"`, `<`, `>` and `` ` ``.
pub open spec fn escaped(b: u8) -> bool {
    b < 0x20 || b == 0x7f || b >= 0x80 || b == 0x20 || b == 0x22 || b == 0x3c || b == 0x3e
        || b == 0x60
}

/// The upper-case hexadecimal digit for `d` (below 16).
pub open spec fn hex_upper(d: int) -> char {
    if d < 10 {
        (0x30 + d) as char
    } else {
        (0x41 + d - 10) as char
    }
}

/// How one byte is written: `%XX` when it is escaped, itself otherwise.
pub open spec fn percent_byte(b: u8) -> Seq<char> {
    if escaped(b) {
        seq!['%', hex_upper(b as int / 16), hex_upper(b as int % 16)]
    } else {
        seq![b as char]
    }
}

/// The percent-encoding of a byte string.
pub open spec fn percent_encoded(bytes: Seq<u8>) -> Seq<char>
    decreases bytes.len(),
{
    if bytes.len() == 0 {
        Seq::empty()
    } else {
        percent_encoded(bytes.drop_last()) + percent_byte(bytes.last())
    }
}

/// A character that may stand in an address as it is: ASCII, and not one of
/// the escaped bytes.
pub open spec fn uri_safe(c: char) -> bool {
    (c as u32) < 0x80 && !escaped(c as u32 as u8)
}

/// Every character of `s` may stand in an address as it is.
pub open spec fn all_uri_safe(s: Seq<char>) -> bool {
    forall|i: int| 0 <= i < s.len() ==> uri_safe(#[trigger] s[i])
}

/// Where image searches go, before the query.
pub open spec fn search_head() -> Seq<char> {
    "https://www.google.com/search?q="@
}

/// What follows the query in an image search address.
pub open spec fn search_tail() -> Seq<char> {
    "&espv=2&biw=1920&bih=966&site=webhp&source=lnms&tbm=isch&sa=X&ei=XosDVaCXD8TasATItgE&ved=0CAcQ_AUoAg&safe=active"@
}

/// The upper-case hexadecimal digit for `d`.
fn hex_digit(d: u8) -> (c: char)
    requires
        d < 16,
    ensures
        c == hex_upper(d as int),
{
    if d < 10 {
        (0x30u8 + d) as char
    } else {
        (0x41u8 + d - 10) as char
    }
}

/// Appends the characters of `t` to `s`.
fn push_all(s: &mut String, t: &str)
    ensures
        final(s)@ == old(s)@ + t@,
{
    let v = chars_of(t);
    let mut i: usize = 0;
    while i < v.len()
        invariant
            v@ == t@,
            i <= v@.len(),
            s@ == old(s)@ + v@.subrange(0, i as int),
        decreases v.len() - i,
    {
        s.push(v[i]);
        i = i + 1;
        assert(s@ =~= old(s)@ + v@.subrange(0, i as int));
    }
    assert(v@.subrange(0, v@.len() as int) =~= v@);
}

/// The percent-encoding of the UTF-8 form of `text`.
pub fn percent_encode(text: &str) -> (s: String)
    ensures
        s@ == percent_encoded(encode_utf8(text@)),
{
    let bytes = text.as_bytes();
    let mut s = String::new();
    let mut i: usize = 0;
    while i < bytes.len()
        invariant
            bytes@ == encode_utf8(text@),
            i <= bytes@.len(),
            s@ == percent_encoded(bytes@.subrange(0, i as int)),
        decreases bytes.len() - i,
    {
        let b = bytes[i];
        let esc = b < 0x20 || b == 0x7f || b >= 0x80 || b == 0x20 || b == 0x22 || b == 0x3c
            || b == 0x3e || b == 0x60;
        if esc {
            s.push('%');
            s.push(hex_digit(b / 16));
            s.push(hex_digit(b % 16));
        } else {
            s.push(b as char);
        }
        proof {
            let prefix = bytes@.subrange(0, i + 1);
            assert(prefix.drop_last() =~= bytes@.subrange(0, i as int));
            assert(prefix.last() == b);
        }
        i = i + 1;
        assert(s@ =~= percent_encoded(bytes@.subrange(0, i as int)));
    }
    assert(bytes@.subrange(0, bytes@.len() as int) =~= bytes@);
    s
}

/// The address of the image search for `keyword`.
pub fn search_uri(keyword: &str) -> (s: String)
    ensures
        s@ == search_head() + percent_encoded(encode_utf8(keyword@)) + search_tail(),
{
    let mut s = "https://www.google.com/search?q=".to_owned();
    let q = percent_encode(keyword);
    push_all(&mut s, q.as_str());
    push_all(&mut s, "&espv=2&biw=1920&bih=966&site=webhp&source=lnms&tbm=isch&sa=X&ei=XosDVaCXD8TasATItgE&ved=0CAcQ_AUoAg&safe=active");
    s
}

/// Every character that percent-encoding writes may stand in an address as it
/// is.
pub proof fn lemma_percent_encoded_uri_safe(bytes: Seq<u8>)
    ensures
        all_uri_safe(percent_encoded(bytes)),
    decreases bytes.len(),
{
    if bytes.len() > 0 {
        lemma_percent_encoded_uri_safe(bytes.drop_last());
        let b = bytes.last();
        let head = percent_encoded(bytes.drop_last());
        let tail = percent_byte(b);
        assert(all_uri_safe(tail)) by {
            if escaped(b) {
                let hi = b as int / 16;
                let lo = b as int % 16;
                assert(uri_safe(hex_upper(hi))) by {
                    assert(0 <= hi < 16);
                }
                assert(uri_safe(hex_upper(lo))) by {
                    assert(0 <= lo < 16);
                }
            }
        }
        assert forall|i: int| 0 <= i < head.len() + tail.len() implies uri_safe(
            #[trigger] (head + tail)[i],
        ) by {
            if i < head.len() {
                assert((head + tail)[i] == head[i]);
            } else {
                assert((head + tail)[i] == tail[i - head.len()]);
            }
        }
    }
}


// ---------------------------------------------------------------------------
// The image link in a search page
// ---------------------------------------------------------------------------

/// How many characters the image extension closing `u` takes: five for
/// `.jpeg` or `.JPEG`, four for `.jpg`, `.JPG`, `.png` or `.PNG`, none
/// otherwise.
pub open spec fn photo_extension_len(u: Seq<char>) -> int {
    if has_suffix(u, seq!['.', 'j', 'p', 'e', 'g']) || has_suffix(u, seq!['.', 'J', 'P', 'E', 'G']) {
        5
    } else if has_suffix(u, seq!['.', 'j', 'p', 'g']) || has_suffix(u, seq!['.', 'J', 'P', 'G'])
        || has_suffix(u, seq!['.', 'p', 'n', 'g']) || has_suffix(u, seq!['.', 'P', 'N', 'G']) {
        4
    } else {
        0
    }
}

/// `https?[^"]+\.(?:jpe?g|JPE?G|png|PNG)` matches the whole of `u`.
pub open spec fn is_photo_link(u: Seq<char>) -> bool {
    &&& free_of(u, '"')
    &&& has_prefix(u, seq!['h', 't', 't', 'p'])
    &&& photo_extension_len(u) > 0
    &&& u.len() >= 5 + photo_extension_len(u)
}

/// Every character of `p[a..b]` is a decimal digit (`\d`).
pub open spec fn digits(p: Seq<char>, a: int, b: int) -> bool {
    forall|k: int| a <= k < b ==> is_decimal_digit(#[trigger] p[k])
}

/// `\["(https?[^"]+\.(?:jpe?g|JPE?G|png|PNG))",\d+,\d+\]` matches `p[i..d2 + 1]`
/// with the link `p[i + 2..q]`, the first number `p[q + 2..d1]` and the second
/// `p[d1 + 1..d2]`.
pub open spec fn image_entry(p: Seq<char>, i: int, q: int, d1: int, d2: int) -> bool {
    &&& 0 <= i && i + 2 <= q && q + 1 < d1 && d1 + 1 < d2 && d2 < p.len()
    &&& p[i] == '[' && p[i + 1] == '"'
    &&& p[q] == '"' && p[q + 1] == ','
    &&& is_photo_link(p.subrange(i + 2, q))
    &&& q + 2 < d1 && digits(p, q + 2, d1) && p[d1] == ','
    &&& digits(p, d1 + 1, d2) && p[d2] == ']'
}

/// `p[i..d2 + 1]` is the leftmost image entry of the page.
pub open spec fn first_image_entry(p: Seq<char>, i: int, q: int, d1: int, d2: int) -> bool {
    &&& image_entry(p, i, q, d1, d2)
    &&& forall|i2: int, q2: int, a2: int, b2: int| i2 < i ==> !image_entry(p, i2, q2, a2, b2)
}

/// The image link of a search page: the link of its leftmost image entry, or
/// `None` when it has none.
pub open spec fn page_image_link(p: Seq<char>) -> Option<Seq<char>> {
    if exists|i: int, q: int, d1: int, d2: int| first_image_entry(p, i, q, d1, d2) {
        let (i, q, d1, d2) = choose|i: int, q: int, d1: int, d2: int|
            first_image_entry(p, i, q, d1, d2);
        Some(p.subrange(i + 2, q))
    } else {
        None
    }
}

/// There is at most one leftmost image entry.
pub proof fn lemma_first_image_entry_unique(
    p: Seq<char>,
    i: int, q: int, d1: int, d2: int,
    i2: int, q2: int, e1: int, e2: int,
)
    requires
        first_image_entry(p, i, q, d1, d2),
        first_image_entry(p, i2, q2, e1, e2),
    ensures
        i == i2 && q == q2 && d1 == e1 && d2 == e2,
{
    if i2 < i {
        assert(!image_entry(p, i2, q2, e1, e2));
    }
    if i < i2 {
        assert(!image_entry(p, i, q, d1, d2));
    }
    if q < q2 {
        assert(p.subrange(i + 2, q2)[q - i - 2] == p[q]);
    }
    if q2 < q {
        assert(p.subrange(i + 2, q)[q2 - i - 2] == p[q2]);
    }
    if d1 < e1 {
        assert(is_decimal_digit(p[d1]));
    }
    if e1 < d1 {
        assert(is_decimal_digit(p[e1]));
    }
    if d2 < e2 {
        assert(is_decimal_digit(p[d2]));
    }
    if e2 < d2 {
        assert(is_decimal_digit(p[e2]));
    }
}

/// Computes `photo_extension_len`.
fn photo_extension_length(u: &[char]) -> (e: usize)
    ensures
        e as int == photo_extension_len(u@),
{
    let jpeg = ['.', 'j', 'p', 'e', 'g'];
    let jpeg_upper = ['.', 'J', 'P', 'E', 'G'];
    let jpg = ['.', 'j', 'p', 'g'];
    let jpg_upper = ['.', 'J', 'P', 'G'];
    let png = ['.', 'p', 'n', 'g'];
    let png_upper = ['.', 'P', 'N', 'G'];
    assert(jpeg@ =~= seq!['.', 'j', 'p', 'e', 'g']);
    assert(jpeg_upper@ =~= seq!['.', 'J', 'P', 'E', 'G']);
    assert(jpg@ =~= seq!['.', 'j', 'p', 'g']);
    assert(jpg_upper@ =~= seq!['.', 'J', 'P', 'G']);
    assert(png@ =~= seq!['.', 'p', 'n', 'g']);
    assert(png_upper@ =~= seq!['.', 'P', 'N', 'G']);
    if ends_with(u, &jpeg) || ends_with(u, &jpeg_upper) {
        5
    } else if ends_with(u, &jpg) || ends_with(u, &jpg_upper) || ends_with(u, &png) || ends_with(
        u,
        &png_upper,
    ) {
        4
    } else {
        0
    }
}

/// Tests `is_photo_link(u)` for a `u` without `"`.
fn photo_link_check(u: &[char]) -> (b: bool)
    requires
        free_of(u@, '"'),
    ensures
        b == is_photo_link(u@),
{
    let http = ['h', 't', 't', 'p'];
    assert(http@ =~= seq!['h', 't', 't', 'p']);
    let e = photo_extension_length(u);
    occurs_at_index(u, 0, &http) && e > 0 && u.len() >= 5 + e
}

/// The end of the run of decimal digits in `p` that starts at `a`.
fn digits_end(p: &[char], a: usize) -> (e: usize)
    requires
        a <= p@.len(),
    ensures
        a <= e <= p@.len(),
        digits(p@, a as int, e as int),
        e < p@.len() ==> !is_decimal_digit(p@[e as int]),
{
    let mut e = a;
    while e < p.len() && decimal_digit(p[e])
        invariant
            a <= e <= p@.len(),
            digits(p@, a as int, e as int),
        decreases p.len() - e,
    {
        e = e + 1;
    }
    e
}

/// Tests for an image entry at `i`; gives its link's end and its two numbers'
/// ends when there is one.
fn entry_at(p: &[char], i: usize) -> (r: Option<(usize, usize, usize)>)
    requires
        i < p@.len(),
    ensures
        match r {
            Some((q, d1, d2)) => image_entry(p@, i as int, q as int, d1 as int, d2 as int),
            None => forall|q: int, d1: int, d2: int| !image_entry(p@, i as int, q, d1, d2),
        },
{
    let n = p.len();
    if !(i + 1 < n && p[i] == '[' && p[i + 1] == '"') {
        return None;
    }
    let mut q = i + 2;
    while q < n && p[q] != '"'
        invariant
            i + 2 <= q <= n,
            n == p@.len(),
            forall|k: int| i + 2 <= k < q ==> p@[k] != '"',
        decreases n - q,
    {
        q = q + 1;
    }
    assert(free_of(p@.subrange(i + 2, q as int), '"'));
    // a link ends at the first quote after `["`
    assert forall|q2: int, a: int, b: int| q2 != q implies !image_entry(p@, i as int, q2, a, b) by {
        if image_entry(p@, i as int, q2, a, b) {
            if q2 < q {
                assert(p@[q2] != '"');
            } else {
                assert(p@.subrange(i + 2, q2)[q - i - 2] == p@[q as int]);
            }
        }
    }
    if q >= n || q + 1 >= n || p[q + 1] != ',' {
        return None;
    }
    if !photo_link_check(&p[i + 2..q]) {
        return None;
    }
    let d1 = digits_end(p, q + 2);
    if d1 == q + 2 || d1 >= n || p[d1] != ',' {
        assert forall|a: int, b: int| !image_entry(p@, i as int, q as int, a, b) by {
            if image_entry(p@, i as int, q as int, a, b) {
                if a < d1 {
                    assert(is_decimal_digit(p@[a]));
                } else if a > d1 {
                    assert(is_decimal_digit(p@[d1 as int]));
                }
            }
        }
        return None;
    }
    let d2 = digits_end(p, d1 + 1);
    if d2 == d1 + 1 || d2 >= n || p[d2] != ']' {
        assert forall|a: int, b: int| !image_entry(p@, i as int, q as int, a, b) by {
            if image_entry(p@, i as int, q as int, a, b) {
                if a < d1 {
                    assert(is_decimal_digit(p@[a]));
                } else if a > d1 {
                    assert(is_decimal_digit(p@[d1 as int]));
                } else if b < d2 {
                    assert(is_decimal_digit(p@[b]));
                } else if b > d2 {
                    assert(is_decimal_digit(p@[d2 as int]));
                }
            }
        }
        return None;
    }
    Some((q, d1, d2))
}

/// Computes `page_image_link(page)`.
pub fn image_link_of(page: &str) -> (r: Option<String>)
    ensures
        match page_image_link(page@) {
            Some(u) => r matches Some(s) && s@ == u,
            None => r is None,
        },
{
    let v = chars_of(page);
    let p = v.as_slice();
    let n = p.len();
    let mut i: usize = 0;
    while i < n
        invariant
            n == p@.len(),
            p@ == page@,
            i <= n,
            forall|i2: int, q2: int, a2: int, b2: int| i2 < i ==> !image_entry(p@, i2, q2, a2, b2),
        decreases n - i,
    {
        match entry_at(p, i) {
            Some((q, d1, d2)) => {
                proof {
                    assert(first_image_entry(p@, i as int, q as int, d1 as int, d2 as int));
                    let (ci, cq, c1, c2) = choose|ci: int, cq: int, c1: int, c2: int|
                        first_image_entry(p@, ci, cq, c1, c2);
                    lemma_first_image_entry_unique(
                        p@, i as int, q as int, d1 as int, d2 as int, ci, cq, c1, c2,
                    );
                    assert(page_image_link(p@) == Some(p@.subrange(i + 2, q as int)));
                }
                return Some(string_of(p, i + 2, q));
            },
            None => {},
        }
        i = i + 1;
    }
    proof {
        assert forall|i2: int, q2: int, a2: int, b2: int| !first_image_entry(p@, i2, q2, a2, b2) by {
            if i2 >= n {
                assert(!image_entry(p@, i2, q2, a2, b2));
            }
        }
    }
    None
}

/// The message when a search page offers no usable image.
pub open spec fn no_image_text() -> Seq<char> {
    "img_url not found"@
}

/// The outcome of image search number `num` (counted from 0) for a fetched
/// search page: the image of its leftmost entry, found at that address, for
/// the first search; later searches find nothing, as only one link is taken
/// from a page.
pub fn read_search_page(fetched: Result<Vec<u8>, FetchFailure>, num: usize) -> (r: Result<ImageTarget, String>)
    ensures
        match fetched {
            Err(f) => r matches Err(m) && m@ == failure_text(f),
            Ok(bytes) => match page_image_link(utf8_lossy(bytes@)) {
                Some(u) if num == 0 => r matches Ok(t) && t.img_url@ == u && t.page_url@ == u,
                _ => r matches Err(m) && m@ == no_image_text(),
            },
        },
{
    match page_text(fetched) {
        Err(m) => Err(m),
        Ok(text) => match image_link_of(text.as_str()) {
            Some(u) => {
                if num == 0 {
                    let page_url = u.clone();
                    Ok(ImageTarget { img_url: u, page_url })
                } else {
                    Err("img_url not found".to_owned())
                }
            },
            None => Err("img_url not found".to_owned()),
        },
    }
}

/// Whether an image is downloaded over TLS: its address starts with `https`.
pub fn uses_tls(url: &str) -> (b: bool)
    ensures
        b == has_prefix(url@, seq!['h', 't', 't', 'p', 's']),
{
    let v = chars_of(url);
    let https = ['h', 't', 't', 'p', 's'];
    assert(https@ =~= seq!['h', 't', 't', 'p', 's']);
    occurs_at_index(v.as_slice(), 0, &https)
}


// ---------------------------------------------------------------------------
// The hunt: search, download, re-upload, and retry
// ---------------------------------------------------------------------------

/// How many searches a hunt may make before it gives up.
pub const MAX_SEARCHES: usize = 6;

/// Where a hunt stands.
#[derive(Debug, Clone, Copy, PartialEq, Eq, Structural)]
pub enum HuntPhase {
    /// Waiting for a search's outcome.
    Searching,
    /// Waiting for the found image's bytes.
    Downloading,
    /// Waiting for the re-hosted image's address.
    Uploading,
    /// Done.
    Finished,
}

/// What the caller does next for a hunt.
pub enum HuntStep {
    /// Run image search number `num` for the name (see `read_search_page`).
    Search { num: usize },
    /// Download the image at `url`.
    Download { url: String },
    /// Upload the downloaded image to the image host.
    Upload,
    /// The hunt is over.
    Finish(Result<ImageTarget, String>),
}

/// What came back from the caller's last piece of work.
pub enum HuntEvent {
    /// The outcome of the search.
    Searched(Result<ImageTarget, String>),
    /// Whether the image's bytes came back.
    Downloaded(bool),
    /// The address of the re-hosted image, or why the upload failed.
    Uploaded(Result<String, String>),
}

/// The shape of an event, for the control flow of a hunt.
pub enum Outcome {
    Found,
    NotFound,
    Fetched,
    NotFetched,
    Hosted,
    NotHosted,
}

/// The shape of `e`.
pub open spec fn outcome_of(e: HuntEvent) -> Outcome {
    match e {
        HuntEvent::Searched(Ok(_)) => Outcome::Found,
        HuntEvent::Searched(Err(_)) => Outcome::NotFound,
        HuntEvent::Downloaded(true) => Outcome::Fetched,
        HuntEvent::Downloaded(false) => Outcome::NotFetched,
        HuntEvent::Uploaded(Ok(_)) => Outcome::Hosted,
        HuntEvent::Uploaded(Err(_)) => Outcome::NotHosted,
    }
}

/// An outcome of this shape is what a hunt in `phase` waits for.
pub open spec fn awaited(phase: HuntPhase, o: Outcome) -> bool {
    match phase {
        HuntPhase::Searching => o is Found || o is NotFound,
        HuntPhase::Downloading => o is Fetched || o is NotFetched,
        HuntPhase::Uploading => o is Hosted || o is NotHosted,
        HuntPhase::Finished => false,
    }
}

/// Back to the top of the loop after `tries` searches: search again, or give
/// up after the last one.
pub open spec fn control_retry(tries: int) -> (int, HuntPhase) {
    if tries >= MAX_SEARCHES {
        (tries, HuntPhase::Finished)
    } else {
        (tries, HuntPhase::Searching)
    }
}

/// The number of searches made and the phase after outcome `o`, from `tries`
/// searches and `phase`. An outcome the hunt does not wait for changes
/// nothing.
pub open spec fn control_next(tries: int, phase: HuntPhase, o: Outcome) -> (int, HuntPhase) {
    if !awaited(phase, o) {
        (tries, phase)
    } else {
        match o {
            Outcome::Found => (tries + 1, HuntPhase::Downloading),
            Outcome::NotFound => (tries, HuntPhase::Finished),
            Outcome::Fetched => (tries, HuntPhase::Uploading),
            Outcome::NotFetched => control_retry(tries),
            Outcome::Hosted => (tries, HuntPhase::Finished),
            Outcome::NotHosted => control_retry(tries),
        }
    }
}

/// A search is asked for when a hunt moves into `Searching`.
pub open spec fn asks_search(before: HuntPhase, after: HuntPhase) -> bool {
    before != HuntPhase::Searching && after == HuntPhase::Searching
}

/// The searches asked for while a hunt at (`tries`, `phase`) takes the
/// outcomes `os` in order, with the number of searches made and the phase at
/// the end.
pub open spec fn run(tries: int, phase: HuntPhase, os: Seq<Outcome>) -> (nat, int, HuntPhase)
    decreases os.len(),
{
    if os.len() == 0 {
        (0, tries, phase)
    } else {
        let (t1, p1) = control_next(tries, phase, os[0]);
        let (n, t, p) = run(t1, p1, os.drop_first());
        (n + if asks_search(phase, p1) { 1nat } else { 0nat }, t, p)
    }
}

/// A hunt: how many searches it made, where it stands, and the page the last
/// found image came from.
pub struct ImageHunt {
    pub tries: usize,
    pub phase: HuntPhase,
    pub page_url: String,
}

impl ImageHunt {
    /// The invariant of a hunt: at most `MAX_SEARCHES` searches; a search is
    /// pending only while another one is allowed; an image is pending only
    /// after a search.
    pub open spec fn wf(&self) -> bool {
        &&& self.tries <= MAX_SEARCHES
        &&& self.phase == HuntPhase::Searching ==> self.tries < MAX_SEARCHES
        &&& (self.phase == HuntPhase::Downloading || self.phase == HuntPhase::Uploading) ==> self.tries >= 1
    }

    /// Starts a hunt: no search made yet, and the first one asked for.
    pub fn new() -> (r: (ImageHunt, HuntStep))
        ensures
            r.0.wf(),
            r.0.tries == 0,
            r.0.phase == HuntPhase::Searching,
            r.1 matches HuntStep::Search { num } && num == 0,
    {
        (ImageHunt { tries: 0, phase: HuntPhase::Searching, page_url: String::new() }, HuntStep::Search { num: 0 })
    }

    /// Back to the top of the loop: the next search, or "not found" when all
    /// searches are spent.
    fn retry(&mut self) -> (s: HuntStep)
        requires
            old(self).tries <= MAX_SEARCHES,
        ensures
            (final(self).tries as int, final(self).phase) == control_retry(old(self).tries as int),
            final(self).page_url == old(self).page_url,
            final(self).phase == HuntPhase::Searching ==> (s matches HuntStep::Search { num } && num == final(self).tries),
            final(self).phase == HuntPhase::Finished ==> (s matches HuntStep::Finish(Err(m)) && m@ == "not found"@),
    {
        if self.tries >= MAX_SEARCHES {
            self.phase = HuntPhase::Finished;
            HuntStep::Finish(Err("not found".to_owned()))
        } else {
            self.phase = HuntPhase::Searching;
            HuntStep::Search { num: self.tries }
        }
    }

    /// Takes the outcome of the last piece of work and says what to do next:
    /// download a found image, upload a downloaded one, finish with the
    /// uploaded one; after a failed download or upload, search again, until
    /// the searches are spent; a failed search ends the hunt with its error.
    pub fn step(&mut self, e: HuntEvent) -> (s: HuntStep)
        requires
            old(self).wf(),
            awaited(old(self).phase, outcome_of(e)),
        ensures
            final(self).wf(),
            (final(self).tries as int, final(self).phase) == control_next(
                old(self).tries as int,
                old(self).phase,
                outcome_of(e),
            ),
            asks_search(old(self).phase, final(self).phase) ==> (s matches HuntStep::Search { num } && num == final(self).tries),
            !(e matches HuntEvent::Searched(Ok(_))) ==> final(self).page_url == old(self).page_url,
            match e {
                HuntEvent::Searched(Ok(t)) => s matches HuntStep::Download { url } && url@ == t.img_url@
                    && final(self).page_url@ == t.page_url@,
                HuntEvent::Searched(Err(m)) => s matches HuntStep::Finish(Err(m2)) && m2@ == m@,
                HuntEvent::Downloaded(true) => s is Upload,
                HuntEvent::Uploaded(Ok(link)) => s matches HuntStep::Finish(Ok(t)) && t.img_url@ == link@
                    && t.page_url@ == old(self).page_url@,
                _ => final(self).phase == HuntPhase::Finished ==> (s matches HuntStep::Finish(Err(m)) && m@ == "not found"@),
            },
    {
        match e {
            HuntEvent::Searched(Ok(t)) => {
                self.tries = self.tries + 1;
                self.phase = HuntPhase::Downloading;
                self.page_url = t.page_url;
                HuntStep::Download { url: t.img_url }
            },
            HuntEvent::Searched(Err(m)) => {
                self.phase = HuntPhase::Finished;
                HuntStep::Finish(Err(m))
            },
            HuntEvent::Downloaded(true) => {
                self.phase = HuntPhase::Uploading;
                HuntStep::Upload
            },
            HuntEvent::Downloaded(false) => self.retry(),
            HuntEvent::Uploaded(Ok(link)) => {
                self.phase = HuntPhase::Finished;
                HuntStep::Finish(Ok(ImageTarget { img_url: link, page_url: self.page_url.clone() }))
            },
            HuntEvent::Uploaded(Err(_)) => self.retry(),
        }
    }
}

/// The hunt invariant holds after any outcome.
proof fn lemma_control_next_wf(tries: int, phase: HuntPhase, o: Outcome)
    requires
        0 <= tries <= MAX_SEARCHES,
        phase == HuntPhase::Searching ==> tries < MAX_SEARCHES,
        (phase == HuntPhase::Downloading || phase == HuntPhase::Uploading) ==> tries >= 1,
    ensures
        ({
            let (t, p) = control_next(tries, phase, o);
            &&& tries <= t <= MAX_SEARCHES
            &&& p == HuntPhase::Searching ==> t < MAX_SEARCHES
            &&& (p == HuntPhase::Downloading || p == HuntPhase::Uploading) ==> t >= 1
            &&& asks_search(phase, p) ==> t == tries && t < MAX_SEARCHES
            &&& (phase == HuntPhase::Searching && p != HuntPhase::Searching) ==> (t == tries + 1 || p == HuntPhase::Finished)
        }),
{
}

/// The address of an image search holds only characters that may stand in
/// an address as they are: whatever the keyword, no white space, quote or
/// angle bracket reaches the request.
pub proof fn lemma_search_uri_safe(keyword: Seq<char>)
    ensures
        all_uri_safe(search_head() + percent_encoded(encode_utf8(keyword)) + search_tail()),
{
    reveal_strlit("https://www.google.com/search?q=");
    reveal_strlit("&espv=2&biw=1920&bih=966&site=webhp&source=lnms&tbm=isch&sa=X&ei=XosDVaCXD8TasATItgE&ved=0CAcQ_AUoAg&safe=active");
    let head = search_head();
    let mid = percent_encoded(encode_utf8(keyword));
    let tail = search_tail();
    lemma_percent_encoded_uri_safe(encode_utf8(keyword));
    assert(all_uri_safe(head));
    assert(all_uri_safe(tail));
    let s = head + mid + tail;
    assert forall|i: int| 0 <= i < s.len() implies uri_safe(#[trigger] s[i]) by {
        if i < head.len() {
            assert(s[i] == head[i]);
        } else if i < head.len() + mid.len() {
            assert(s[i] == mid[i - head.len()]);
        } else {
            assert(s[i] == tail[i - head.len() - mid.len()]);
        }
    }
}

/// How a hunt moves: a found image is downloaded, with one more search
/// counted; a downloaded image is uploaded; an uploaded image, or a failed
/// search, ends the hunt; a failed download or upload asks for another search
/// while fewer than six were made, and ends the hunt after the sixth.
pub proof fn law_hunt_moves(tries: int)
    requires
        0 <= tries <= 6,
    ensures
        control_next(tries, HuntPhase::Searching, Outcome::Found) == (tries + 1, HuntPhase::Downloading),
        control_next(tries, HuntPhase::Searching, Outcome::NotFound) == (tries, HuntPhase::Finished),
        control_next(tries, HuntPhase::Downloading, Outcome::Fetched) == (tries, HuntPhase::Uploading),
        control_next(tries, HuntPhase::Uploading, Outcome::Hosted) == (tries, HuntPhase::Finished),
        tries < 6 ==> control_next(tries, HuntPhase::Downloading, Outcome::NotFetched) == (tries, HuntPhase::Searching),
        tries < 6 ==> control_next(tries, HuntPhase::Uploading, Outcome::NotHosted) == (tries, HuntPhase::Searching),
        tries == 6 ==> control_next(tries, HuntPhase::Downloading, Outcome::NotFetched) == (tries, HuntPhase::Finished),
        tries == 6 ==> control_next(tries, HuntPhase::Uploading, Outcome::NotHosted) == (tries, HuntPhase::Finished),
        forall|o: Outcome| control_next(tries, HuntPhase::Finished, o) == (tries, HuntPhase::Finished),
{
}

/// One search is pending while a hunt is in `Searching`.
pub open spec fn pending(phase: HuntPhase) -> int {
    if phase == HuntPhase::Searching {
        1
    } else {
        0
    }
}

/// Searches left to a hunt, counted from `tries` searches made and `phase`:
/// whatever outcomes `os` come back, the searches asked for on the way stay
/// within `MAX_SEARCHES`, and a finished hunt asks for none.
pub proof fn lemma_hunt_search_bound(tries: int, phase: HuntPhase, os: Seq<Outcome>)
    requires
        0 <= tries <= MAX_SEARCHES,
        phase == HuntPhase::Searching ==> tries < MAX_SEARCHES,
        (phase == HuntPhase::Downloading || phase == HuntPhase::Uploading) ==> tries >= 1,
    ensures
        run(tries, phase, os).0 <= MAX_SEARCHES - tries - pending(phase),
        phase == HuntPhase::Finished ==> run(tries, phase, os).0 == 0,
    decreases os.len(),
{
    if os.len() > 0 {
        lemma_control_next_wf(tries, phase, os[0]);
        let (t1, p1) = control_next(tries, phase, os[0]);
        lemma_hunt_search_bound(t1, p1, os.drop_first());
    }
}

/// A hunt started by `ImageHunt::new` makes at most `MAX_SEARCHES` searches,
/// the first one included, whatever outcomes come back.
pub proof fn lemma_hunt_at_most_max_searches(os: Seq<Outcome>)
    ensures
        1 + run(0, HuntPhase::Searching, os).0 <= MAX_SEARCHES,
{
    lemma_hunt_search_bound(0, HuntPhase::Searching, os);
}

} // verus!
