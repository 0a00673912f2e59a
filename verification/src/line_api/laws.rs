//! What the keyword rules accept, stated character by character over all
//! keywords and pages, independently of how the rules are written.

use crate::line_api::keyword_switch::{
    close_tag, ellipsis_topic, lemma_first_title_span_unique, first_title_span, image_name, is_image_link, is_image_name,
    is_wakeup_call, is_web_address, lemma_trailing_segment_shape, open_tag, page_title,
    title_span, trailing_segment,
};
use crate::text::{free_of, is_white_space, occurs_at};
use vstd::prelude::*;

verus! {

/// A keyword has a topic exactly when it ends in `…` or `⋯` right after a
/// character other than `.` (that character may itself be `…` or `⋯`), or in
/// `...` right after a character other than `.`.
pub proof fn law_topic_exists(s: Seq<char>)
    ensures
        ellipsis_topic(s) is Some <==> (
            (s.len() >= 2 && (s[s.len() - 1] == '\u{2026}' || s[s.len() - 1] == '\u{22ef}')
                && s[s.len() - 2] != '.')
            || (s.len() >= 4 && s[s.len() - 1] == '.' && s[s.len() - 2] == '.'
                && s[s.len() - 3] == '.' && s[s.len() - 4] != '.')
        ),
{
    let n = s.len();
    if n >= 3 && s[n - 1] == '.' && s[n - 2] == '.' && s[n - 3] == '.' {
        assert(s.subrange(n - 3, n as int) =~= seq!['.', '.', '.']);
    }
    if n >= 3 && s.subrange(n - 3, n as int) =~= seq!['.', '.', '.'] {
        assert(s[n - 1] == s.subrange(n - 3, n as int)[2]);
        assert(s[n - 2] == s.subrange(n - 3, n as int)[1]);
        assert(s[n - 3] == s.subrange(n - 3, n as int)[0]);
    }
}

/// The topic of a keyword closed by `…` or `⋯` (after a character other than
/// `.`) is the longest run of characters other than `.` right before that
/// last character.
pub proof fn law_topic_before_one_char_ellipsis(s: Seq<char>)
    requires
        s.len() >= 2,
        s[s.len() - 1] == '\u{2026}' || s[s.len() - 1] == '\u{22ef}',
        s[s.len() - 2] != '.',
    ensures
        ellipsis_topic(s) matches Some(t) && {
            let k = s.len() - 1;
            &&& 1 <= t.len() <= k
            &&& s.subrange(k - t.len(), k) == t
            &&& forall|i: int| 0 <= i < t.len() ==> t[i] != '.'
            &&& t.len() == k || s[k - t.len() - 1] == '.'
        },
{
    law_topic_exists(s);
    run_shape(s, s.len() - 1);
}

/// The topic of a keyword closed by `...` (after a character other than `.`)
/// is the longest run of characters other than `.` right before the dots.
pub proof fn law_topic_before_three_dots(s: Seq<char>)
    requires
        s.len() >= 4,
        s[s.len() - 1] == '.' && s[s.len() - 2] == '.' && s[s.len() - 3] == '.',
        s[s.len() - 4] != '.',
    ensures
        ellipsis_topic(s) matches Some(t) && {
            let k = s.len() - 3;
            &&& 1 <= t.len() <= k
            &&& s.subrange(k - t.len(), k) == t
            &&& forall|i: int| 0 <= i < t.len() ==> t[i] != '.'
            &&& t.len() == k || s[k - t.len() - 1] == '.'
        },
{
    law_topic_exists(s);
    assert(s.subrange(s.len() - 3, s.len() as int) =~= seq!['.', '.', '.']);
    run_shape(s, s.len() - 3);
}

/// The run of characters other than `.` that ends `s[0..k]`, when `s[k - 1]`
/// is not a `.`.
proof fn run_shape(s: Seq<char>, k: int)
    requires
        1 <= k <= s.len(),
        s[k - 1] != '.',
    ensures
        ({
            let t = trailing_segment(s.subrange(0, k));
            &&& 1 <= t.len() <= k
            &&& s.subrange(k - t.len(), k) == t
            &&& forall|i: int| 0 <= i < t.len() ==> t[i] != '.'
            &&& t.len() == k || s[k - t.len() - 1] == '.'
        }),
{
    let head = s.subrange(0, k);
    lemma_trailing_segment_shape(head);
    let t = trailing_segment(head);
    assert(head.last() == s[k - 1]);
    assert(head.drop_last() =~= s.subrange(0, k - 1));
    assert(t.len() >= 1);
    assert(s.subrange(k - t.len(), k) =~= head.subrange(head.len() - t.len(), head.len() as int));
    assert forall|i: int| 0 <= i < t.len() implies t[i] != '.' by {
        assert(t[i] == t[i]);
    }
    if t.len() < k {
        assert(s[k - t.len() - 1] == head[head.len() - t.len() - 1]);
    }
}

/// The four image extensions, character by character.
proof fn ends_in_extension(s: Seq<char>, e: Seq<char>)
    requires
        s.len() >= 4,
        e.len() == 4,
    ensures
        (s.subrange(s.len() - 4, s.len() as int) == e) <==> (s[s.len() - 4] == e[0]
            && s[s.len() - 3] == e[1] && s[s.len() - 2] == e[2] && s[s.len() - 1] == e[3]),
{
    let tail = s.subrange(s.len() - 4, s.len() as int);
    if s[s.len() - 4] == e[0] && s[s.len() - 3] == e[1] && s[s.len() - 2] == e[2] && s[s.len()
        - 1] == e[3] {
        assert(tail =~= e);
    }
    if tail == e {
        assert(tail[0] == e[0] && tail[1] == e[1] && tail[2] == e[2] && tail[3] == e[3]);
    }
}

/// A keyword names an image exactly when it has at least five characters,
/// ends in `.jpg`, `.png`, `.PNG` or `.JPG`, and has no white space before
/// that ending; the image searched for is the keyword without the ending.
pub proof fn law_image_name(s: Seq<char>)
    ensures
        is_image_name(s) <==> (s.len() >= 5 && s[s.len() - 4] == '.' && (
            (s[s.len() - 3] == 'j' && s[s.len() - 2] == 'p' && s[s.len() - 1] == 'g')
            || (s[s.len() - 3] == 'p' && s[s.len() - 2] == 'n' && s[s.len() - 1] == 'g')
            || (s[s.len() - 3] == 'P' && s[s.len() - 2] == 'N' && s[s.len() - 1] == 'G')
            || (s[s.len() - 3] == 'J' && s[s.len() - 2] == 'P' && s[s.len() - 1] == 'G'))
            && forall|i: int| 0 <= i < s.len() - 4 ==> !is_white_space(#[trigger] s[i])),
        is_image_name(s) ==> image_name(s).len() == s.len() - 4 && image_name(s) + s.subrange(
            s.len() - 4,
            s.len() as int,
        ) == s,
{
    if s.len() >= 5 {
        ends_in_extension(s, seq!['.', 'j', 'p', 'g']);
        ends_in_extension(s, seq!['.', 'p', 'n', 'g']);
        ends_in_extension(s, seq!['.', 'P', 'N', 'G']);
        ends_in_extension(s, seq!['.', 'J', 'P', 'G']);
        let head = s.subrange(0, s.len() - 4);
        assert forall|i: int| 0 <= i < s.len() - 4 implies head[i] == s[i] by {}
        assert(head + s.subrange(s.len() - 4, s.len() as int) =~= s);
    }
}

/// A keyword is an image address exactly when it has at least ten
/// characters, starts with `https`, ends in `.jpg`, `.png`, `.PNG` or `.JPG`,
/// and has no white space between the `https` and that ending.
pub proof fn law_image_link(s: Seq<char>)
    ensures
        is_image_link(s) <==> (s.len() >= 10 && s[0] == 'h' && s[1] == 't' && s[2] == 't'
            && s[3] == 'p' && s[4] == 's' && s[s.len() - 4] == '.' && (
            (s[s.len() - 3] == 'j' && s[s.len() - 2] == 'p' && s[s.len() - 1] == 'g')
            || (s[s.len() - 3] == 'p' && s[s.len() - 2] == 'n' && s[s.len() - 1] == 'g')
            || (s[s.len() - 3] == 'P' && s[s.len() - 2] == 'N' && s[s.len() - 1] == 'G')
            || (s[s.len() - 3] == 'J' && s[s.len() - 2] == 'P' && s[s.len() - 1] == 'G'))
            && forall|i: int| 5 <= i < s.len() - 4 ==> !is_white_space(#[trigger] s[i])),
{
    if s.len() >= 10 {
        ends_in_extension(s, seq!['.', 'j', 'p', 'g']);
        ends_in_extension(s, seq!['.', 'p', 'n', 'g']);
        ends_in_extension(s, seq!['.', 'P', 'N', 'G']);
        ends_in_extension(s, seq!['.', 'J', 'P', 'G']);
        let pre = s.subrange(0, 5);
        if s[0] == 'h' && s[1] == 't' && s[2] == 't' && s[3] == 'p' && s[4] == 's' {
            assert(pre =~= seq!['h', 't', 't', 'p', 's']);
        }
        if pre == seq!['h', 't', 't', 'p', 's'] {
            assert(pre[0] == s[0] && pre[1] == s[1] && pre[2] == s[2] && pre[3] == s[3] && pre[4]
                == s[4]);
        }
        let mid = s.subrange(5, s.len() - 4);
        assert forall|i: int| 5 <= i < s.len() - 4 implies mid[i - 5] == s[i] by {}
        assert forall|i: int| 0 <= i < mid.len() implies mid[i] == s[i + 5] by {}
        if forall|i: int| 5 <= i < s.len() - 4 ==> !is_white_space(#[trigger] s[i]) {
            assert forall|i: int| 0 <= i < mid.len() implies !is_white_space(#[trigger] mid[i]) by {
                assert(mid[i] == s[i + 5]);
            }
        }
    }
}

/// A keyword is a web address exactly when it has at least five characters,
/// starts with `http`, and has no white space after the `http`.
pub proof fn law_web_address(s: Seq<char>)
    ensures
        is_web_address(s) <==> (s.len() >= 5 && s[0] == 'h' && s[1] == 't' && s[2] == 't'
            && s[3] == 'p' && forall|i: int| 4 <= i < s.len() ==> !is_white_space(#[trigger] s[i])),
{
    if s.len() >= 5 {
        let pre = s.subrange(0, 4);
        if s[0] == 'h' && s[1] == 't' && s[2] == 't' && s[3] == 'p' {
            assert(pre =~= seq!['h', 't', 't', 'p']);
        }
        if pre == seq!['h', 't', 't', 'p'] {
            assert(pre[0] == s[0] && pre[1] == s[1] && pre[2] == s[2] && pre[3] == s[3]);
        }
        let rest = s.subrange(4, s.len() as int);
        assert forall|i: int| 4 <= i < s.len() implies rest[i - 4] == s[i] by {}
        if forall|i: int| 4 <= i < s.len() ==> !is_white_space(#[trigger] s[i]) {
            assert forall|i: int| 0 <= i < rest.len() implies !is_white_space(#[trigger] rest[i]) by {
                assert(rest[i] == s[i + 4]);
            }
        }
    }
}

/// A keyword is a wake-up call exactly when it ends in `醒醒` after any
/// character but a line break (white space included).
pub proof fn law_wakeup_call(s: Seq<char>)
    ensures
        is_wakeup_call(s) <==> (s.len() >= 3 && s[s.len() - 1] == '\u{9192}' && s[s.len() - 2]
            == '\u{9192}' && s[s.len() - 3] != '\n'),
{
    if s.len() >= 3 {
        let tail = s.subrange(s.len() - 2, s.len() as int);
        if s[s.len() - 1] == '\u{9192}' && s[s.len() - 2] == '\u{9192}' {
            assert(tail =~= seq!['\u{9192}', '\u{9192}']);
        }
        if tail == seq!['\u{9192}', '\u{9192}'] {
            assert(tail[0] == s[s.len() - 2] && tail[1] == s[s.len() - 1]);
        }
    }
}

/// The middle part of `x + y + z`.
proof fn middle_of(x: Seq<char>, y: Seq<char>, z: Seq<char>)
    ensures
        (x + y + z).subrange(x.len() as int, x.len() as int + y.len() as int) == y,
        forall|k: int| #![trigger (x + y + z)[k]] x.len() <= k < x.len() + y.len() ==> (x + y + z)[k] == y[k - x.len()],
{
    assert((x + y + z).subrange(x.len() as int, x.len() as int + y.len() as int) =~= y);
}

/// A part of a part.
proof fn part_of_part(p: Seq<char>, lo: int, hi: int, s: Seq<char>, a: int, b: int)
    requires
        0 <= lo <= a <= b <= hi <= p.len(),
        p.subrange(lo, hi) == s,
    ensures
        p.subrange(a, b) == s.subrange(a - lo, b - lo),
{
    assert(p.subrange(a, b) =~= s.subrange(a - lo, b - lo));
}

/// The span of the title in `a + "<title>" + t + "</title>" + b`.
proof fn title_in_page(a: Seq<char>, t: Seq<char>, b: Seq<char>, p: Seq<char>)
    requires
        p == a + open_tag() + t + close_tag() + b,
        forall|i: int| 0 <= i < t.len() ==> t[i] != '\n',
        forall|i: int| !occurs_at(t, i, close_tag()),
    ensures
        title_span(p, a.len() as int, a.len() as int + 7 + t.len() as int),
        p.subrange(a.len() as int + 7, a.len() as int + 7 + t.len() as int) == t,
{
    let i0 = a.len() as int;
    let j0 = i0 + 7 + t.len();
    let ao = a + open_tag();
    let cb = close_tag() + b;
    assert(p =~= a + open_tag() + (t + cb));
    middle_of(a, open_tag(), t + cb);
    assert(p =~= ao + t + cb);
    middle_of(ao, t, cb);
    assert(p =~= (ao + t) + close_tag() + b);
    middle_of(ao + t, close_tag(), b);
    assert(p[j0] == close_tag()[0]);
    assert(occurs_at(p, i0, open_tag()));
    assert(occurs_at(p, j0, close_tag()));
    assert forall|k: int| #![trigger p[k]] i0 + 7 <= k < j0 implies p[k] != '\n' && !occurs_at(
        p,
        k,
        close_tag(),
    ) by {
        inside_title(p, t, i0, j0, k);
    }
}

/// A character of the title text is no line break and starts no `</title>`.
proof fn inside_title(p: Seq<char>, t: Seq<char>, i0: int, j0: int, k: int)
    requires
        0 <= i0,
        j0 == i0 + 7 + t.len(),
        j0 + 8 <= p.len(),
        p.subrange(i0 + 7, j0) == t,
        p.subrange(j0, j0 + 8) == close_tag(),
        forall|i: int| 0 <= i < t.len() ==> t[i] != '\n',
        forall|i: int| !occurs_at(t, i, close_tag()),
        i0 + 7 <= k < j0,
    ensures
        p[k] != '\n' && !occurs_at(p, k, close_tag()),
{
    assert(p.subrange(i0 + 7, j0)[k - i0 - 7] == p[k]);
    assert(p.subrange(j0, j0 + 8)[0] == p[j0]);
    if occurs_at(p, k, close_tag()) {
        if k + 8 <= j0 {
            part_of_part(p, i0 + 7, j0, t, k, k + 8);
            assert(occurs_at(t, k - i0 - 7, close_tag()));
        } else {
            assert(p.subrange(k, k + 8)[j0 - k] == p[j0]);
            assert(close_tag()[j0 - k] != '<');
        }
    }
}

/// No title match starts in `a` when `a` holds no `<title>`.
proof fn no_title_before(a: Seq<char>, p: Seq<char>, rest: Seq<char>)
    requires
        p == a + open_tag() + rest,
        forall|i: int| !occurs_at(a, i, open_tag()),
    ensures
        forall|i2: int, j2: int| i2 < a.len() ==> !title_span(p, i2, j2),
{
    let i0 = a.len() as int;
    assert(p[i0] == '<');
    assert forall|i2: int, j2: int| i2 < i0 implies !title_span(p, i2, j2) by {
        if title_span(p, i2, j2) {
            if i2 + 7 <= i0 {
                assert(a.subrange(i2, i2 + 7) =~= p.subrange(i2, i2 + 7));
                assert(occurs_at(a, i2, open_tag()));
            } else {
                assert(p.subrange(i2, i2 + 7)[i0 - i2] == p[i0]);
                assert(open_tag()[i0 - i2] != '<');
            }
        }
    }
}

/// A page `a + "<title>" + t + "</title>" + b`, where `a` holds no
/// `<title>` and `t` holds no line break and no `</title>`, has the title `t`:
/// any character but a line break, spaces included, may stand in a title.
pub proof fn law_page_title(a: Seq<char>, t: Seq<char>, b: Seq<char>)
    requires
        forall|i: int| !occurs_at(a, i, open_tag()),
        forall|i: int| 0 <= i < t.len() ==> t[i] != '\n',
        forall|i: int| !occurs_at(t, i, close_tag()),
    ensures
        page_title(a + open_tag() + t + close_tag() + b) == Some(t),
{
    let p = a + open_tag() + t + close_tag() + b;
    let i0 = a.len() as int;
    let j0 = i0 + 7 + t.len();
    title_in_page(a, t, b, p);
    assert(p == a + open_tag() + (t + close_tag() + b));
    no_title_before(a, p, t + close_tag() + b);
    assert(first_title_span(p, i0, j0));
    let (ci, cj) = choose|ci: int, cj: int| first_title_span(p, ci, cj);
    lemma_first_title_span_unique(p, i0, j0, ci, cj);
}

/// A page without `<title>` has no title.
pub proof fn law_no_title(p: Seq<char>)
    requires
        forall|i: int| !occurs_at(p, i, open_tag()),
    ensures
        page_title(p) is None,
{
}

} // verus!
