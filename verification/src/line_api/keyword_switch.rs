//! The keyword rules of the LINE bot: which kind of answer a message asks
//! for, and how the answer is made once the outside work (reply search, image
//! search, page fetch) is done.

use crate::fetch::{failure_text, page_text, utf8_lossy, FetchFailure};
use crate::google_image::ImageTarget;
use crate::line_api::{image_reply, is_image_reply, is_text_reply, text_reply, LineReply};
use crate::random::choose_one;
use crate::text::{
    blank_free, blank_free_range, chars_of, ends_with, free_of, has_prefix, has_suffix,
    is_white_space, occurs_at, occurs_at_index, string_of,
};
use vstd::prelude::*;

verus! {

/// `...`
pub open spec fn three_dots() -> Seq<char> {
    seq!['.', '.', '.']
}

/// `http`
pub open spec fn http_scheme() -> Seq<char> {
    seq!['h', 't', 't', 'p']
}

/// `https`
pub open spec fn https_scheme() -> Seq<char> {
    seq!['h', 't', 't', 'p', 's']
}

/// `醒醒` ("wake up").
pub open spec fn wakeup_word() -> Seq<char> {
    seq!['\u{9192}', '\u{9192}']
}

/// How many characters the ellipsis closing `s` takes: one for `…` (U+2026)
/// or `⋯` (U+22EF), three for `...`, none when `s` ends in neither.
pub open spec fn ellipsis_len(s: Seq<char>) -> int {
    if s.len() >= 1 && (s.last() == '\u{2026}' || s.last() == '\u{22ef}') {
        1
    } else if has_suffix(s, three_dots()) {
        3
    } else {
        0
    }
}

/// The run of characters other than `.` that ends `s`.
pub open spec fn trailing_segment(s: Seq<char>) -> Seq<char>
    decreases s.len(),
{
    if s.len() == 0 || s.last() == '.' {
        Seq::empty()
    } else {
        trailing_segment(s.drop_last()).push(s.last())
    }
}

/// The topic of a keyword written `topic...`, `topic…` or `topic⋯`: what the
/// pattern `([^.]+)(?:\.\.\.|…|⋯)$` captures in its group, or `None` when it
/// does not match.
pub open spec fn ellipsis_topic(s: Seq<char>) -> Option<Seq<char>> {
    let e = ellipsis_len(s);
    if e > 0 && s.len() > e && s[s.len() - e - 1] != '.' {
        Some(trailing_segment(s.subrange(0, s.len() - e)))
    } else {
        None
    }
}

/// `s` ends in `.jpg`, `.png`, `.PNG` or `.JPG`.
pub open spec fn has_image_extension(s: Seq<char>) -> bool {
    ||| has_suffix(s, seq!['.', 'j', 'p', 'g'])
    ||| has_suffix(s, seq!['.', 'p', 'n', 'g'])
    ||| has_suffix(s, seq!['.', 'P', 'N', 'G'])
    ||| has_suffix(s, seq!['.', 'J', 'P', 'G'])
}

/// `s` names an image: `^([^\s]+)\.(?:jpg|png|PNG|JPG)$`.
pub open spec fn is_image_name(s: Seq<char>) -> bool {
    s.len() >= 5 && has_image_extension(s) && blank_free(s.subrange(0, s.len() - 4))
}

/// What an image name asks to find: the name without its extension.
pub open spec fn image_name(s: Seq<char>) -> Seq<char> {
    s.subrange(0, s.len() - 4)
}

/// `s` is the address of an image: `^https([^\s]+)\.(?:jpg|png|PNG|JPG)$`.
pub open spec fn is_image_link(s: Seq<char>) -> bool {
    s.len() >= 10 && has_prefix(s, https_scheme()) && has_image_extension(s) && blank_free(
        s.subrange(5, s.len() - 4),
    )
}

/// `s` is a web address: `^https?([^\s]+)$`.
pub open spec fn is_web_address(s: Seq<char>) -> bool {
    s.len() >= 5 && has_prefix(s, http_scheme()) && blank_free(s.subrange(4, s.len() as int))
}

/// `s` calls the bot awake: `.+醒醒$`.
pub open spec fn is_wakeup_call(s: Seq<char>) -> bool {
    s.len() >= 3 && has_suffix(s, wakeup_word()) && s[s.len() - 3] != '\n'
}

/// The notice that the feature is unavailable while the system is moved.
pub open spec fn wakeup_notice() -> Seq<char> {
    "系統轉換中，本功能目前無法使用"@
}

/// The answer when no reply is known for a topic.
pub open spec fn unknown_topic_text() -> Seq<char> {
    "阿哈哈，螺絲不知道"@
}

/// The answer when no image was found.
pub open spec fn image_missing_text() -> Seq<char> {
    "螺絲找不到，螺絲 QQ"@
}

/// The error when no rule applies.
pub open spec fn no_match_text() -> Seq<char> {
    "no matched"@
}

/// The error when a fetched page has no title.
pub open spec fn no_title_text() -> Seq<char> {
    "keyword fetch fail"@
}

/// `a` is what the bot says to `k` when only the last rule is left: the
/// unavailability notice for a wake-up call, otherwise the no-match error.
pub open spec fn is_fallback(k: Seq<char>, a: Result<LineReply, String>) -> bool {
    if is_wakeup_call(k) {
        a matches Ok(reply) && is_text_reply(reply, wakeup_notice())
    } else {
        a matches Err(e) && e@ == no_match_text()
    }
}

/// What the bot has to do next for a message.
pub enum SwitchStep {
    /// Look up replies for the topic (with the LINE bot's thresholds), then
    /// call `answer_topic`.
    SearchReplies { topic: String },
    /// Search an image for the query, then call `answer_image`.
    FindImage { query: String },
    /// Fetch the page, call `read_page`, look up replies for its title (with
    /// the terminator's thresholds), then call `answer_page`.
    FetchPage { url: String },
    /// The answer is known.
    Answer(Result<LineReply, String>),
}

/// Tests `ellipsis_len`.
fn ellipsis_length(v: &[char]) -> (e: usize)
    ensures
        e as int == ellipsis_len(v@),
{
    let n = v.len();
    if n >= 1 && (v[n - 1] == '\u{2026}' || v[n - 1] == '\u{22ef}') {
        return 1;
    }
    let dots = ['.', '.', '.'];
    assert(dots@ =~= three_dots());
    if ends_with(v, &dots) {
        3
    } else {
        0
    }
}

/// `trailing_segment(s[0..k])` adds `s[k - 1]` to `trailing_segment(s[0..k - 1])`
/// when that character is not a `.`.
proof fn lemma_trailing_segment_step(s: Seq<char>, k: int)
    requires
        0 < k <= s.len(),
        s[k - 1] != '.',
    ensures
        trailing_segment(s.subrange(0, k)) == trailing_segment(s.subrange(0, k - 1)).push(
            s[k - 1],
        ),
{
    assert(s.subrange(0, k).drop_last() =~= s.subrange(0, k - 1));
}

/// Where the run of characters other than `.` that ends `v[0..k]` begins.
fn trailing_segment_start(v: &[char], k: usize) -> (j: usize)
    requires
        k <= v@.len(),
    ensures
        j <= k,
        trailing_segment(v@.subrange(0, k as int)) == v@.subrange(j as int, k as int),
{
    let mut j: usize = k;
    while j > 0 && v[j - 1] != '.'
        invariant
            j <= k <= v@.len(),
            trailing_segment(v@.subrange(0, k as int)) == trailing_segment(
                v@.subrange(0, j as int),
            ) + v@.subrange(j as int, k as int),
        decreases j,
    {
        proof {
            lemma_trailing_segment_step(v@, j as int);
            assert(v@.subrange(j - 1, k as int) =~= seq![v@[j - 1]] + v@.subrange(
                j as int,
                k as int,
            ));
            assert(trailing_segment(v@.subrange(0, j as int)) + v@.subrange(j as int, k as int)
                =~= trailing_segment(v@.subrange(0, j - 1)) + v@.subrange(j - 1, k as int));
        }
        j = j - 1;
    }
    proof {
        assert(trailing_segment(v@.subrange(0, j as int)) =~= Seq::empty());
        assert(trailing_segment(v@.subrange(0, k as int)) =~= v@.subrange(j as int, k as int));
    }
    j
}

/// Computes `ellipsis_topic(v)`.
fn topic_of(v: &[char]) -> (r: Option<String>)
    ensures
        match ellipsis_topic(v@) {
            Some(t) => r matches Some(s) && s@ == t,
            None => r is None,
        },
{
    let n = v.len();
    let e = ellipsis_length(v);
    if e > 0 && n > e && v[n - e - 1] != '.' {
        let k = n - e;
        let j = trailing_segment_start(v, k);
        Some(string_of(v, j, k))
    } else {
        None
    }
}

/// Tests `has_image_extension`.
fn image_extension(v: &[char]) -> (b: bool)
    ensures
        b == has_image_extension(v@),
{
    let jpg = ['.', 'j', 'p', 'g'];
    let png = ['.', 'p', 'n', 'g'];
    let png_upper = ['.', 'P', 'N', 'G'];
    let jpg_upper = ['.', 'J', 'P', 'G'];
    assert(jpg@ =~= seq!['.', 'j', 'p', 'g']);
    assert(png@ =~= seq!['.', 'p', 'n', 'g']);
    assert(png_upper@ =~= seq!['.', 'P', 'N', 'G']);
    assert(jpg_upper@ =~= seq!['.', 'J', 'P', 'G']);
    ends_with(v, &jpg) || ends_with(v, &png) || ends_with(v, &png_upper) || ends_with(
        v,
        &jpg_upper,
    )
}

/// Tests `is_image_name`.
fn image_name_check(v: &[char]) -> (b: bool)
    ensures
        b == is_image_name(v@),
{
    let n = v.len();
    n >= 5 && image_extension(v) && blank_free_range(v, 0, n - 4)
}

/// Tests `is_image_link`.
fn image_link_check(v: &[char]) -> (b: bool)
    ensures
        b == is_image_link(v@),
{
    let n = v.len();
    let https = ['h', 't', 't', 'p', 's'];
    assert(https@ =~= https_scheme());
    n >= 10 && occurs_at_index(v, 0, &https) && image_extension(v) && blank_free_range(
        v,
        5,
        n - 4,
    )
}

/// Tests `is_web_address`.
fn web_address_check(v: &[char]) -> (b: bool)
    ensures
        b == is_web_address(v@),
{
    let n = v.len();
    let http = ['h', 't', 't', 'p'];
    assert(http@ =~= http_scheme());
    n >= 5 && occurs_at_index(v, 0, &http) && blank_free_range(v, 4, n)
}

/// Tests `is_wakeup_call`.
fn wakeup_check(v: &[char]) -> (b: bool)
    ensures
        b == is_wakeup_call(v@),
{
    let n = v.len();
    let word = ['\u{9192}', '\u{9192}'];
    assert(word@ =~= wakeup_word());
    n >= 3 && ends_with(v, &word) && v[n - 3] != '\n'
}

/// The answer of the last rule, on the characters of the keyword.
fn fallback_of(v: &[char]) -> (a: Result<LineReply, String>)
    ensures
        is_fallback(v@, a),
{
    if wakeup_check(v) {
        Ok(text_reply("系統轉換中，本功能目前無法使用".to_owned()))
    } else {
        Err("no matched".to_owned())
    }
}

/// The answer of the last rule: the unavailability notice for a wake-up call,
/// otherwise the no-match error.
pub fn fallback(keyword: &str) -> (a: Result<LineReply, String>)
    ensures
        is_fallback(keyword@, a),
{
    let v = chars_of(keyword);
    fallback_of(v.as_slice())
}

/// Decides what a message asks for. The rules are tried in order: a topic
/// closed by an ellipsis, an image name (an image address is answered
/// directly), a web address, and last a wake-up call.
pub fn switch(keyword: &str) -> (r: SwitchStep)
    ensures
        ellipsis_topic(keyword@) matches Some(t) ==> (r matches SwitchStep::SearchReplies {
            topic,
        } && topic@ == t),
        ellipsis_topic(keyword@) is None && is_image_name(keyword@) && is_image_link(keyword@)
            ==> (r matches SwitchStep::Answer(Ok(reply)) && is_image_reply(reply, keyword@)),
        ellipsis_topic(keyword@) is None && is_image_name(keyword@) && !is_image_link(keyword@)
            ==> (r matches SwitchStep::FindImage { query } && query@ == image_name(keyword@)),
        ellipsis_topic(keyword@) is None && !is_image_name(keyword@) && is_web_address(keyword@)
            ==> (r matches SwitchStep::FetchPage { url } && url@ == keyword@),
        ellipsis_topic(keyword@) is None && !is_image_name(keyword@) && !is_web_address(keyword@)
            ==> (r matches SwitchStep::Answer(a) && is_fallback(keyword@, a)),
{
    let v = chars_of(keyword);
    let n = v.len();
    match topic_of(v.as_slice()) {
        Some(topic) => {
            return SwitchStep::SearchReplies { topic };
        },
        None => {},
    }
    if image_name_check(v.as_slice()) {
        if image_link_check(v.as_slice()) {
            return SwitchStep::Answer(Ok(image_reply(keyword.to_owned())));
        }
        return SwitchStep::FindImage { query: string_of(v.as_slice(), 0, n - 4) };
    }
    if web_address_check(v.as_slice()) {
        return SwitchStep::FetchPage { url: keyword.to_owned() };
    }
    SwitchStep::Answer(fallback_of(v.as_slice()))
}

/// `<title>`
pub open spec fn open_tag() -> Seq<char> {
    seq!['<', 't', 'i', 't', 'l', 'e', '>']
}

/// `</title>`
pub open spec fn close_tag() -> Seq<char> {
    seq!['<', '/', 't', 'i', 't', 'l', 'e', '>']
}

/// `<title>(.*?)</title>` matches `p[i..j + 8]`: a `<title>` at `i`, the first
/// `</title>` after it at `j`, and no line break between them.
pub open spec fn title_span(p: Seq<char>, i: int, j: int) -> bool {
    &&& occurs_at(p, i, open_tag())
    &&& i + 7 <= j
    &&& occurs_at(p, j, close_tag())
    &&& forall|k: int|
        #![trigger p[k]]
        i + 7 <= k < j ==> p[k] != '\n' && !occurs_at(p, k, close_tag())
}

/// `p[i..j + 8]` is the leftmost match of `<title>(.*?)</title>`.
pub open spec fn first_title_span(p: Seq<char>, i: int, j: int) -> bool {
    &&& title_span(p, i, j)
    &&& forall|i2: int, j2: int| i2 < i ==> !title_span(p, i2, j2)
}

/// The title of a page: what `<title>(.*?)</title>` captures at its leftmost
/// match, or `None` when it matches nowhere.
pub open spec fn page_title(p: Seq<char>) -> Option<Seq<char>> {
    if exists|i: int, j: int| first_title_span(p, i, j) {
        let (i, j) = choose|i: int, j: int| first_title_span(p, i, j);
        Some(p.subrange(i + 7, j))
    } else {
        None
    }
}

/// There is at most one leftmost title match.
pub proof fn lemma_first_title_span_unique(p: Seq<char>, i: int, j: int, i2: int, j2: int)
    requires
        first_title_span(p, i, j),
        first_title_span(p, i2, j2),
    ensures
        i == i2 && j == j2,
{
    if i2 < i {
        assert(!title_span(p, i2, j2));
    }
    if i < i2 {
        assert(!title_span(p, i, j));
    }
    if j < j2 {
        assert(p[j] == p[j]);
        assert(!occurs_at(p, j, close_tag()));
    }
    if j2 < j {
        assert(p[j2] == p[j2]);
        assert(!occurs_at(p, j2, close_tag()));
    }
}

/// Computes `page_title(page)`.
pub fn title_of(page: &str) -> (r: Option<String>)
    ensures
        match page_title(page@) {
            Some(t) => r matches Some(s) && s@ == t,
            None => r is None,
        },
{
    let v = chars_of(page);
    let p = v.as_slice();
    let n = p.len();
    let open = ['<', 't', 'i', 't', 'l', 'e', '>'];
    let close = ['<', '/', 't', 'i', 't', 'l', 'e', '>'];
    assert(open@ =~= open_tag());
    assert(close@ =~= close_tag());
    let mut i: usize = 0;
    while i < n
        invariant
            n == p@.len(),
            p@ == page@,
            open@ == open_tag(),
            close@ == close_tag(),
            i <= n,
            forall|i2: int, j2: int| i2 < i ==> !title_span(p@, i2, j2),
        decreases n - i,
    {
        if occurs_at_index(p, i, &open) {
            let mut k: usize = i + 7;
            let mut line_break = false;
            while k < n && !line_break
                invariant
                    n == p@.len(),
                    p@ == page@,
                    open@ == open_tag(),
                    close@ == close_tag(),
                    i + 7 <= k <= n,
                    occurs_at(p@, i as int, open_tag()),
                    forall|i2: int, j2: int| i2 < i ==> !title_span(p@, i2, j2),
                    forall|m: int|
                        #![trigger p@[m]]
                        i + 7 <= m < k ==> p@[m] != '\n' && !occurs_at(p@, m, close_tag()),
                    line_break ==> k < n && p@[k as int] == '\n' && !occurs_at(
                        p@,
                        k as int,
                        close_tag(),
                    ),
                decreases 2 * (n - k) + (if line_break { 0int } else { 1int }),
            {
                if occurs_at_index(p, k, &close) {
                    proof {
                        assert(title_span(p@, i as int, k as int));
                        assert(first_title_span(p@, i as int, k as int));
                        let (ci, cj) = choose|ci: int, cj: int| first_title_span(p@, ci, cj);
                        lemma_first_title_span_unique(p@, i as int, k as int, ci, cj);
                        assert(page_title(p@) == Some(p@.subrange(i + 7, k as int)));
                    }
                    return Some(string_of(p, i + 7, k));
                }
                if p[k] == '\n' {
                    line_break = true;
                } else {
                    k = k + 1;
                }
            }
            assert forall|j2: int| !title_span(p@, i as int, j2) by {
                if title_span(p@, i as int, j2) {
                    if j2 < k {
                        assert(p@[j2] == p@[j2]);
                    } else if j2 == k {
                        assert(line_break);
                    } else {
                        assert(p@[k as int] == p@[k as int]);
                    }
                }
            }
        }
        i = i + 1;
    }
    None
}

/// Pick one of `candidates` for a fresh text reply.
fn pick_reply(candidates: Vec<String>) -> (r: LineReply)
    requires
        candidates@.len() > 0,
    ensures
        exists|i: int| 0 <= i < candidates@.len() && is_text_reply(r, (#[trigger] candidates@[i])@),
{
    match choose_one(candidates.as_slice()) {
        Some(t) => text_reply(t),
        None => vstd::pervasive::unreached(),
    }
}

/// Answers a topic with one of the replies found for it, picked at random; with
/// the shrug when none was found.
pub fn answer_topic(replies: Option<Vec<String>>) -> (r: LineReply)
    requires
        replies matches Some(v) ==> v@.len() > 0,
    ensures
        match replies {
            Some(v) => exists|i: int| 0 <= i < v@.len() && is_text_reply(r, (#[trigger] v@[i])@),
            None => is_text_reply(r, unknown_topic_text()),
        },
{
    match replies {
        Some(v) => pick_reply(v),
        None => {
            let candidates = vec!["阿哈哈，螺絲不知道".to_owned()];
            pick_reply(candidates)
        },
    }
}

/// Answers an image name with the image found, or with the apology when the
/// search failed.
pub fn answer_image(found: Result<ImageTarget, String>) -> (r: LineReply)
    ensures
        match found {
            Ok(t) => is_image_reply(r, t.img_url@),
            Err(_) => is_text_reply(r, image_missing_text()),
        },
{
    match found {
        Ok(t) => image_reply(t.img_url),
        Err(_) => text_reply("螺絲找不到，螺絲 QQ".to_owned()),
    }
}

/// The title of a fetched page, or why there is none.
pub fn read_page(fetched: Result<Vec<u8>, FetchFailure>) -> (r: Result<String, String>)
    ensures
        match fetched {
            Err(f) => r matches Err(m) && m@ == failure_text(f),
            Ok(bytes) => match page_title(utf8_lossy(bytes@)) {
                Some(t) => r matches Ok(s) && s@ == t,
                None => r matches Err(m) && m@ == no_title_text(),
            },
        },
{
    match page_text(fetched) {
        Err(m) => Err(m),
        Ok(text) => match title_of(text.as_str()) {
            Some(t) => Ok(t),
            None => Err("keyword fetch fail".to_owned()),
        },
    }
}

/// Answers a web address once replies were looked up for its page's title:
/// one of them, picked at random; when none was found, the last rule decides.
pub fn answer_page(keyword: &str, replies: Option<Vec<String>>) -> (r: Result<LineReply, String>)
    requires
        replies matches Some(v) ==> v@.len() > 0,
    ensures
        match replies {
            Some(v) => r matches Ok(reply) && exists|i: int|
                0 <= i < v@.len() && is_text_reply(reply, (#[trigger] v@[i])@),
            None => is_fallback(keyword@, r),
        },
{
    match replies {
        Some(v) => Ok(pick_reply(v)),
        None => fallback(keyword),
    }
}

// ---------------------------------------------------------------------------
// Laws of the rules
// ---------------------------------------------------------------------------

/// `trailing_segment(s)` is the longest suffix of `s` without a `.`.
pub proof fn lemma_trailing_segment_shape(s: Seq<char>)
    ensures
        ({
            let t = trailing_segment(s);
            &&& t.len() <= s.len()
            &&& s.subrange(s.len() - t.len(), s.len() as int) == t
            &&& free_of(t, '.')
            &&& t.len() == s.len() || s[s.len() - t.len() - 1] == '.'
        }),
    decreases s.len(),
{
    if s.len() > 0 && s.last() != '.' {
        let r = s.drop_last();
        lemma_trailing_segment_shape(r);
        let t0 = trailing_segment(r);
        let t = trailing_segment(s);
        assert(t == t0.push(s.last()));
        assert(s.subrange(s.len() - t.len(), s.len() as int) =~= r.subrange(
            r.len() - t0.len(),
            r.len() as int,
        ).push(s.last()));
        assert forall|i: int| 0 <= i < t.len() implies #[trigger] t[i] != '.' by {
            if i < t0.len() {
                assert(t[i] == t0[i]);
            }
        }
        if t.len() < s.len() {
            assert(s[s.len() - t.len() - 1] == r[r.len() - t0.len() - 1]);
        }
    } else {
        assert(trailing_segment(s) =~= Seq::<char>::empty());
        assert(s.subrange(s.len() as int, s.len() as int) =~= Seq::<char>::empty());
    }
}

/// The topic of a keyword is a non-empty run without `.` that stands right
/// before the closing ellipsis, and is the whole of that run: before it comes
/// the start of the keyword or a `.`.
pub proof fn lemma_topic_shape(s: Seq<char>)
    requires
        ellipsis_topic(s) is Some,
    ensures
        ({
            let t = ellipsis_topic(s)->0;
            let k = s.len() - ellipsis_len(s);
            &&& t.len() > 0
            &&& free_of(t, '.')
            &&& k - t.len() >= 0
            &&& s.subrange(k - t.len(), k) == t
            &&& k - t.len() == 0 || s[k - t.len() - 1] == '.'
        }),
{
    let k = s.len() - ellipsis_len(s);
    let head = s.subrange(0, k);
    lemma_trailing_segment_shape(head);
    let t = trailing_segment(head);
    assert(head.last() == s[k - 1]);
    assert(t.len() > 0);
    assert(s.subrange(k - t.len(), k) =~= head.subrange(head.len() - t.len(), head.len() as int));
    if t.len() < head.len() {
        assert(s[k - t.len() - 1] == head[head.len() - t.len() - 1]);
    }
}

/// An image address is an image name as well, so it is the image rule that
/// answers it.
pub proof fn lemma_image_link_is_image_name(s: Seq<char>)
    requires
        is_image_link(s),
    ensures
        is_image_name(s),
{
    assert forall|i: int| 0 <= i < s.len() - 4 implies !is_white_space(
        #[trigger] s.subrange(0, s.len() - 4)[i],
    ) by {
        if i < 5 {
            assert(s.subrange(0, 5)[i] == s[i]);
        } else {
            assert(s.subrange(5, s.len() - 4)[i - 5] == s[i]);
        }
    }
}

/// The title of a page stands between a `<title>` and a `</title>` of the
/// page and holds no line break.
pub proof fn lemma_page_title_shape(p: Seq<char>)
    requires
        page_title(p) is Some,
    ensures
        ({
            let t = page_title(p)->0;
            &&& free_of(t, '\n')
            &&& exists|i: int|
                occurs_at(p, i, open_tag()) && #[trigger] p.subrange(i + 7, i + 7 + t.len()) == t
                    && occurs_at(p, i + 7 + t.len(), close_tag())
        }),
{
    let (i, j) = choose|i: int, j: int| first_title_span(p, i, j);
    let t = p.subrange(i + 7, j);
    assert forall|k: int| 0 <= k < t.len() implies #[trigger] t[k] != '\n' by {
        assert(t[k] == p[i + 7 + k]);
    }
    assert(p.subrange(i + 7, i + 7 + t.len()) == t);
}

} // verus!
