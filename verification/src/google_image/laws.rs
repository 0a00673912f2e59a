//! What the image search address and the search-page reading give, stated
//! over all inputs.

use crate::google_image::{
    first_image_entry, image_entry, is_photo_link, lemma_first_image_entry_unique,
    page_image_link, percent_byte, percent_encoded,
};
use crate::text::is_decimal_digit;
use vstd::prelude::*;

verus! {

/// The upper-case hexadecimal digits, in order.
pub open spec fn hex_digits() -> Seq<char> {
    seq!['0', '1', '2', '3', '4', '5', '6', '7', '8', '9', 'A', 'B', 'C', 'D', 'E', 'F']
}

/// One byte of the address: a control byte (below 0x20, or 0x7F), a non-ASCII
/// byte, a space, `"`, `<`, `>` or `` ` `` is written `%` and its two
/// upper-case hexadecimal digits; every other byte is written as its ASCII
/// character.
pub proof fn law_percent_byte(b: u8)
    ensures
        (b < 0x20 || b == 0x7f || b >= 0x80 || b == (' ' as u8) || b == ('"' as u8) || b == ('<' as u8)
            || b == ('>' as u8) || b == ('`' as u8)) ==> percent_byte(b) == seq![
            '%',
            hex_digits()[b as int / 16],
            hex_digits()[b as int % 16],
        ],
        !(b < 0x20 || b == 0x7f || b >= 0x80 || b == (' ' as u8) || b == ('"' as u8) || b == ('<' as u8)
            || b == ('>' as u8) || b == ('`' as u8)) ==> percent_byte(b) == seq![b as char],
{
    let hi = b as int / 16;
    let lo = b as int % 16;
    assert(0 <= hi < 16 && 0 <= lo < 16);
    assert(hex_digits()[hi] == (if hi < 10 { (0x30 + hi) as char } else { (0x41 + hi - 10) as char }));
    assert(hex_digits()[lo] == (if lo < 10 { (0x30 + lo) as char } else { (0x41 + lo - 10) as char }));
}

/// Bytes are written one after the other: the encoding of two byte strings
/// put together is their encodings put together.
pub proof fn law_percent_concat(x: Seq<u8>, y: Seq<u8>)
    ensures
        percent_encoded(x + y) == percent_encoded(x) + percent_encoded(y),
    decreases y.len(),
{
    if y.len() == 0 {
        assert(x + y =~= x);
        assert(percent_encoded(y) =~= Seq::<char>::empty());
        assert(percent_encoded(x) + percent_encoded(y) =~= percent_encoded(x));
    } else {
        law_percent_concat(x, y.drop_last());
        assert((x + y).drop_last() =~= x + y.drop_last());
        assert((x + y).last() == y.last());
        assert(percent_encoded(x + y) =~= percent_encoded(x) + percent_encoded(y));
    }
}

/// A single byte is written as `percent_byte` says.
pub proof fn law_percent_single(b: u8)
    ensures
        percent_encoded(seq![b]) == percent_byte(b),
{
    assert(seq![b].drop_last() =~= Seq::<u8>::empty());
    assert(percent_encoded(Seq::<u8>::empty()) + percent_byte(b) =~= percent_byte(b));
}

/// An image link is a text without `"` that starts with `http` and ends in
/// `.jpg`, `.JPG`, `.png` or `.PNG` (at least nine characters) or in `.jpeg`
/// or `.JPEG` (at least ten), leaving at least one character between the
/// `http` and the extension.
pub proof fn law_photo_link(u: Seq<char>)
    ensures
        is_photo_link(u) <==> ({
            let n = u.len();
            &&& forall|i: int| 0 <= i < n ==> u[i] != '"'
            &&& n >= 4 && u[0] == 'h' && u[1] == 't' && u[2] == 't' && u[3] == 'p'
            &&& ((n >= 10 && u[n - 5] == '.' && ((u[n - 4] == 'j' && u[n - 3] == 'p' && u[n - 2] == 'e'
                && u[n - 1] == 'g') || (u[n - 4] == 'J' && u[n - 3] == 'P' && u[n - 2] == 'E'
                && u[n - 1] == 'G'))) || (n >= 9 && u[n - 4] == '.' && ((u[n - 3] == 'j' && u[n
                - 2] == 'p' && u[n - 1] == 'g') || (u[n - 3] == 'J' && u[n - 2] == 'P' && u[n - 1]
                == 'G') || (u[n - 3] == 'p' && u[n - 2] == 'n' && u[n - 1] == 'g') || (u[n - 3]
                == 'P' && u[n - 2] == 'N' && u[n - 1] == 'G'))))
        }),
{
    let n = u.len();
    if n >= 4 {
        let pre = u.subrange(0, 4);
        if u[0] == 'h' && u[1] == 't' && u[2] == 't' && u[3] == 'p' {
            assert(pre =~= seq!['h', 't', 't', 'p']);
        }
        if pre == seq!['h', 't', 't', 'p'] {
            assert(pre[0] == u[0] && pre[1] == u[1] && pre[2] == u[2] && pre[3] == u[3]);
        }
        let t4 = u.subrange(n - 4, n as int);
        assert(t4[0] == u[n - 4] && t4[1] == u[n - 3] && t4[2] == u[n - 2] && t4[3] == u[n - 1]);
        if u[n - 4] == '.' {
            if u[n - 3] == 'j' && u[n - 2] == 'p' && u[n - 1] == 'g' {
                assert(t4 =~= seq!['.', 'j', 'p', 'g']);
            }
            if u[n - 3] == 'J' && u[n - 2] == 'P' && u[n - 1] == 'G' {
                assert(t4 =~= seq!['.', 'J', 'P', 'G']);
            }
            if u[n - 3] == 'p' && u[n - 2] == 'n' && u[n - 1] == 'g' {
                assert(t4 =~= seq!['.', 'p', 'n', 'g']);
            }
            if u[n - 3] == 'P' && u[n - 2] == 'N' && u[n - 1] == 'G' {
                assert(t4 =~= seq!['.', 'P', 'N', 'G']);
            }
        }
        if n >= 5 {
            let t5 = u.subrange(n - 5, n as int);
            assert(t5[0] == u[n - 5] && t5[1] == u[n - 4] && t5[2] == u[n - 3] && t5[3] == u[n - 2]
                && t5[4] == u[n - 1]);
            if u[n - 5] == '.' {
                if u[n - 4] == 'j' && u[n - 3] == 'p' && u[n - 2] == 'e' && u[n - 1] == 'g' {
                    assert(t5 =~= seq!['.', 'j', 'p', 'e', 'g']);
                }
                if u[n - 4] == 'J' && u[n - 3] == 'P' && u[n - 2] == 'E' && u[n - 1] == 'G' {
                    assert(t5 =~= seq!['.', 'J', 'P', 'E', 'G']);
                }
            }
        }
    }
}

/// `[`, `"`, then the link, then `",`, the first number, `,`, the second
/// number and `]`.
pub open spec fn entry_text(u: Seq<char>, d1: Seq<char>, d2: Seq<char>) -> Seq<char> {
    seq!['[', '"'] + u + seq!['"', ','] + d1 + seq![','] + d2 + seq![']']
}

/// The entry written at the start of `p` (past `a`) is an image entry.
proof fn entry_after(a: Seq<char>, u: Seq<char>, d1: Seq<char>, d2: Seq<char>, b: Seq<char>)
    requires
        is_photo_link(u),
        d1.len() >= 1,
        d2.len() >= 1,
        forall|i: int| 0 <= i < d1.len() ==> is_decimal_digit(#[trigger] d1[i]),
        forall|i: int| 0 <= i < d2.len() ==> is_decimal_digit(#[trigger] d2[i]),
    ensures
        ({
            let p = a + entry_text(u, d1, d2) + b;
            let i = a.len() as int;
            let q = i + 2 + u.len();
            let e1 = q + 2 + d1.len();
            let e2 = e1 + 1 + d2.len();
            image_entry(p, i, q, e1, e2) && p.subrange(i + 2, q) == u
        }),
{
    let p = a + entry_text(u, d1, d2) + b;
    let i = a.len() as int;
    let q = i + 2 + u.len();
    let e1 = q + 2 + d1.len();
    let e2 = e1 + 1 + d2.len();
    let e = entry_text(u, d1, d2);
    let lu = u.len() as int;
    let l1 = d1.len() as int;
    let l2 = d2.len() as int;
    assert(e.len() == 6 + lu + l1 + l2);
    assert forall|k: int| 0 <= k < e.len() implies p[i + k] == e[k] by {}
    assert(e[0] == '[' && e[1] == '"');
    assert(e[2 + lu] == '"' && e[3 + lu] == ',');
    assert(e[4 + lu + l1] == ',');
    assert(e[5 + lu + l1 + l2] == ']');
    assert forall|k: int| 0 <= k < lu implies e[2 + k] == u[k] by {}
    assert forall|k: int| 0 <= k < l1 implies e[4 + lu + k] == d1[k] by {}
    assert forall|k: int| 0 <= k < l2 implies e[5 + lu + l1 + k] == d2[k] by {}
    assert(p.subrange(i + 2, q) =~= u);
    assert forall|k: int| q + 2 <= k < e1 implies is_decimal_digit(#[trigger] p[k]) by {
        assert(p[k] == d1[k - q - 2]);
    }
    assert forall|k: int| e1 + 1 <= k < e2 implies is_decimal_digit(#[trigger] p[k]) by {
        assert(p[k] == d2[k - e1 - 1]);
    }
}

/// A search page `a + ["link",n1,n2] + b`, where `a` holds no `[`, the link
/// is an image link and both numbers are non-empty runs of decimal digits,
/// gives that link.
pub proof fn law_page_image_link(a: Seq<char>, u: Seq<char>, d1: Seq<char>, d2: Seq<char>, b: Seq<char>)
    requires
        forall|i: int| 0 <= i < a.len() ==> a[i] != '[',
        is_photo_link(u),
        d1.len() >= 1,
        d2.len() >= 1,
        forall|i: int| 0 <= i < d1.len() ==> is_decimal_digit(#[trigger] d1[i]),
        forall|i: int| 0 <= i < d2.len() ==> is_decimal_digit(#[trigger] d2[i]),
    ensures
        page_image_link(a + entry_text(u, d1, d2) + b) == Some(u),
{
    let p = a + entry_text(u, d1, d2) + b;
    let i = a.len() as int;
    let q = i + 2 + u.len();
    let e1 = q + 2 + d1.len();
    let e2 = e1 + 1 + d2.len();
    entry_after(a, u, d1, d2, b);
    assert forall|i2: int, q2: int, a2: int, b2: int| i2 < i implies !image_entry(p, i2, q2, a2, b2) by {
        if 0 <= i2 {
            assert(p[i2] == a[i2]);
        }
    }
    assert(first_image_entry(p, i, q, e1, e2));
    let (ci, cq, c1, c2) = choose|ci: int, cq: int, c1: int, c2: int|
        first_image_entry(p, ci, cq, c1, c2);
    lemma_first_image_entry_unique(p, i, q, e1, e2, ci, cq, c1, c2);
}

/// A search page without `[` gives no link.
pub proof fn law_no_image_link(p: Seq<char>)
    requires
        forall|i: int| 0 <= i < p.len() ==> p[i] != '[',
    ensures
        page_image_link(p) is None,
{
}

} // verus!
