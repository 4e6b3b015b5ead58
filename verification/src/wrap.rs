//! Display-width text wrapping for the terminal UI: break a line into
//! segments that each fit a column budget, counting wide (CJK) characters
//! as two columns.

use vstd::prelude::*;

verus! {

/// The display width of one character in terminal columns, as the
/// unicode-width tables give it; control characters count zero.
pub uninterp spec fn display_width(c: char) -> int;

/// Relies on unicode_width's `UnicodeWidthChar::width`: the width is a
/// function of the character alone, control characters have none (taken
/// as zero), and the width tables never exceed three columns.
#[verifier::external_body]
fn char_display_width(c: char) -> (w: usize)
    ensures
        w == display_width(c),
        0 <= w <= 3,
{
    unicode_width::UnicodeWidthChar::width(c).unwrap_or(0)
}

/// Greedy wrapping: characters go onto the current segment until one would
/// push its width past `max_width`; then a new segment starts. The state
/// is the list of closed segments plus the open one and its width.
pub open spec fn wrap_step(
    acc: (Seq<Seq<char>>, Seq<char>, int),
    c: char,
    max_width: int,
) -> (Seq<Seq<char>>, Seq<char>, int) {
    let (closed, cur, cur_w) = acc;
    if cur_w + display_width(c) > max_width && cur.len() > 0 {
        (closed.push(cur), seq![c], display_width(c))
    } else {
        (closed, cur.push(c), cur_w + display_width(c))
    }
}

/// The wrap state after consuming a whole text.
pub open spec fn wrap_fold(text: Seq<char>, max_width: int) -> (Seq<Seq<char>>, Seq<char>, int)
    decreases text.len(),
{
    if text.len() == 0 {
        (Seq::empty(), Seq::empty(), 0)
    } else {
        wrap_step(wrap_fold(text.drop_last(), max_width), text.last(), max_width)
    }
}

/// What wrapping yields: the closed segments plus the final open one (an
/// empty final segment stands for an empty text). A zero budget returns
/// the text unbroken.
pub open spec fn wrap_spec(text: Seq<char>, max_width: int) -> Seq<Seq<char>> {
    if max_width == 0 {
        seq![text]
    } else {
        let (closed, cur, cur_w) = wrap_fold(text, max_width);
        closed.push(cur)
    }
}

/// Wrap text into segments that each fit within `max_width` display
/// columns. Wide characters count two columns. At least one segment is
/// returned (empty for empty input); a zero width disables wrapping.
pub fn wrap_text(text: &str, max_width: usize) -> (r: Vec<String>)
    requires
        max_width <= usize::MAX - 3,
    ensures
        r@.map_values(|s: String| s@) == wrap_spec(text@, max_width as int),
        r@.len() >= 1,
{
    let chars = crate::strings::str_chars(text);
    if max_width == 0 {
        let mut r: Vec<String> = Vec::new();
        r.push(crate::strings::chars_to_string(&chars));
        proof {
            assert(r@.map_values(|s: String| s@) =~= seq![text@]);
        }
        return r;
    }
    let n = chars.len();
    let mut closed: Vec<String> = Vec::new();
    let mut cur: Vec<char> = Vec::new();
    let mut cur_w: usize = 0;
    let mut i: usize = 0;
    proof {
        assert(chars@.take(0) =~= Seq::<char>::empty());
        assert(closed@.map_values(|s: String| s@) =~= Seq::<Seq<char>>::empty());
    }
    while i < n
        invariant
            max_width >= 1,
            max_width <= usize::MAX - 3,
            n == chars@.len(),
            chars@ == text@,
            i <= n,
            (closed@.map_values(|s: String| s@), cur@, cur_w as int) == wrap_fold(
                text@.take(i as int),
                max_width as int,
            ),
            cur_w <= max_width || (cur@.len() == 1 && cur_w <= 3),
        decreases n - i,
    {
        let c = chars[i];
        proof {
            assert(text@.take(i as int + 1).drop_last() =~= text@.take(i as int));
            assert(text@.take(i as int + 1).last() == text@[i as int]);
        }
        let w = char_display_width(c);
        if cur_w + w > max_width && cur.len() > 0 {
            let seg = crate::strings::chars_to_string(&cur);
            let ghost closed_before = closed@;
            closed.push(seg);
            proof {
                assert(closed@.map_values(|s: String| s@) =~= closed_before.map_values(
                    |s: String| s@,
                ).push(cur@));
            }
            cur = Vec::new();
            cur.push(c);
            cur_w = w;
            proof {
                assert(cur@ =~= seq![c]);
            }
        } else {
            cur.push(c);
            cur_w = cur_w + w;
        }
        i = i + 1;
    }
    proof {
        assert(text@.take(n as int) =~= text@);
    }
    let last = crate::strings::chars_to_string(&cur);
    let ghost closed_before = closed@;
    closed.push(last);
    proof {
        assert(closed@.map_values(|s: String| s@) =~= closed_before.map_values(
            |s: String| s@,
        ).push(cur@));
    }
    closed
}

} // verus!
