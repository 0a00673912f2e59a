//! The first keyword rules: every recognised keyword gets the notice that the
//! feature is unavailable while the system is moved.

use crate::line_api::keyword_switch::{
    ellipsis_topic, is_wakeup_call, no_match_text, three_dots, wakeup_notice,
};
use crate::text::{chars_of, ends_with, has_suffix, is_white_space, white_space};
use vstd::prelude::*;

verus! {

/// `[^\.]\.\.\.$`: `s` ends in `...` after a character other than `.`.
pub open spec fn is_trailing_ellipsis(s: Seq<char>) -> bool {
    s.len() >= 4 && has_suffix(s, three_dots()) && s[s.len() - 4] != '.'
}

/// `[^\s]\.jpg$`: `s` ends in `.jpg` after a character that is not white
/// space.
pub open spec fn is_jpg_name(s: Seq<char>) -> bool {
    s.len() >= 5 && has_suffix(s, seq!['.', 'j', 'p', 'g']) && !is_white_space(s[s.len() - 5])
}

/// The notice for a recognised keyword, or `no matched`.
pub fn switch(keyword: &str) -> (r: Result<&'static str, &'static str>)
    ensures
        is_trailing_ellipsis(keyword@) || is_jpg_name(keyword@) || is_wakeup_call(keyword@)
            ==> (r matches Ok(m) && m@ == wakeup_notice()),
        !(is_trailing_ellipsis(keyword@) || is_jpg_name(keyword@) || is_wakeup_call(keyword@))
            ==> (r matches Err(m) && m@ == no_match_text()),
{
    let v = chars_of(keyword);
    let p = v.as_slice();
    let n = p.len();
    let dots = ['.', '.', '.'];
    let jpg = ['.', 'j', 'p', 'g'];
    let wake = ['\u{9192}', '\u{9192}'];
    assert(dots@ =~= three_dots());
    assert(jpg@ =~= seq!['.', 'j', 'p', 'g']);
    assert(wake@ =~= seq!['\u{9192}', '\u{9192}']);
    if n >= 4 && ends_with(p, &dots) && p[n - 4] != '.' {
        return Ok("系統轉換中，本功能目前無法使用");
    }
    if n >= 5 && ends_with(p, &jpg) && !white_space(p[n - 5]) {
        return Ok("系統轉換中，本功能目前無法使用");
    }
    if n >= 3 && ends_with(p, &wake) && p[n - 3] != '\n' {
        return Ok("系統轉換中，本功能目前無法使用");
    }
    Err("no matched")
}

/// Every keyword that the first rules take for a trailing `...` is one that
/// the later rules take for a topic.
pub proof fn lemma_trailing_ellipsis_has_topic(s: Seq<char>)
    requires
        is_trailing_ellipsis(s),
    ensures
        ellipsis_topic(s) is Some,
{
    assert(s[s.len() - 1] == s.subrange(s.len() - 3, s.len() as int)[2]);
}

/// A keyword ends in a trailing `...` exactly when it ends in three dots
/// after a character other than `.`.
pub proof fn law_trailing_ellipsis(s: Seq<char>)
    ensures
        is_trailing_ellipsis(s) <==> (s.len() >= 4 && s[s.len() - 1] == '.' && s[s.len() - 2]
            == '.' && s[s.len() - 3] == '.' && s[s.len() - 4] != '.'),
{
    if s.len() >= 4 {
        let tail = s.subrange(s.len() - 3, s.len() as int);
        if s[s.len() - 1] == '.' && s[s.len() - 2] == '.' && s[s.len() - 3] == '.' {
            assert(tail =~= three_dots());
        }
        if tail == three_dots() {
            assert(tail[0] == s[s.len() - 3] && tail[1] == s[s.len() - 2] && tail[2] == s[s.len()
                - 1]);
        }
    }
}

/// A keyword is a `.jpg` name exactly when it ends in `.jpg` after a
/// character that is not white space.
pub proof fn law_jpg_name(s: Seq<char>)
    ensures
        is_jpg_name(s) <==> (s.len() >= 5 && s[s.len() - 4] == '.' && s[s.len() - 3] == 'j'
            && s[s.len() - 2] == 'p' && s[s.len() - 1] == 'g' && !is_white_space(s[s.len() - 5])),
{
    if s.len() >= 5 {
        let tail = s.subrange(s.len() - 4, s.len() as int);
        if s[s.len() - 4] == '.' && s[s.len() - 3] == 'j' && s[s.len() - 2] == 'p' && s[s.len()
            - 1] == 'g' {
            assert(tail =~= seq!['.', 'j', 'p', 'g']);
        }
        if tail == seq!['.', 'j', 'p', 'g'] {
            assert(tail[0] == s[s.len() - 4] && tail[1] == s[s.len() - 3] && tail[2] == s[s.len()
                - 2] && tail[3] == s[s.len() - 1]);
        }
    }
}

} // verus!
