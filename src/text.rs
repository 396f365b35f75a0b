//! Editing and laying out text.
use vstd::prelude::*;

verus! {

/// `s` without its last character; an empty `s` stays empty.
pub open spec fn drop_last_char(s: Seq<char>) -> Seq<char> {
    if s.len() > 0 {
        s.drop_last()
    } else {
        s
    }
}

/// Relies on `String::push`: appends `c` to the end of `s`.
#[verifier::external_body]
pub(crate) fn push_char(s: &mut String, c: char)
    ensures
        final(s)@ == old(s)@.push(c),
{
    s.push(c)
}

/// Relies on `String::pop`: removes the last character, if there is one.
#[verifier::external_body]
pub(crate) fn pop_char(s: &mut String)
    ensures
        final(s)@ == drop_last_char(old(s)@),
{
    s.pop();
}

} // verus!

verus! {

/// Characters with the Unicode `White_Space` property.
pub open spec fn is_white_space(c: char) -> bool {
    let v = c as int;
    ||| 0x9 <= v <= 0xd
    ||| v == 0x20
    ||| v == 0x85
    ||| v == 0xa0
    ||| v == 0x1680
    ||| 0x2000 <= v <= 0x200a
    ||| v == 0x2028
    ||| v == 0x2029
    ||| v == 0x202f
    ||| v == 0x205f
    ||| v == 0x3000
}

/// The words of `s`: its maximal runs of characters that are not white space.
pub open spec fn words(s: Seq<char>) -> Seq<Seq<char>>
    decreases s.len(),
{
    if s.len() == 0 {
        seq![]
    } else {
        let p = s.drop_last();
        let c = s.last();
        let w = words(p);
        if is_white_space(c) {
            w
        } else if p.len() > 0 && !is_white_space(p.last()) && w.len() > 0 {
            w.drop_last().push(w.last().push(c))
        } else {
            w.push(seq![c])
        }
    }
}

/// Places word `w` after text `out`, whose last line holds `cur` characters:
/// on a new line if it would overflow `max` there, else after a space.
/// Gives the new text and the length of its last line.
pub open spec fn place(out: Seq<char>, cur: int, w: Seq<char>, max: int) -> (Seq<char>, int) {
    let (o1, c1) = if cur + w.len() + 1 > max && cur > 0 {
        (out.push('\n'), 0)
    } else {
        (out, cur)
    };
    let (o2, c2) = if c1 > 0 {
        (o1.push(' '), c1 + 1)
    } else {
        (o1, c1)
    };
    (o2 + w, c2 + w.len())
}

/// Words `ws` laid out greedily in lines of at most `max` characters (a
/// longer word takes a line of its own); with the length of the last line.
pub open spec fn layout(ws: Seq<Seq<char>>, max: int) -> (Seq<char>, int)
    decreases ws.len(),
{
    if ws.len() == 0 {
        (seq![], 0)
    } else {
        let (o, c) = layout(ws.drop_last(), max);
        place(o, c, ws.last(), max)
    }
}

/// Whether `c` has the Unicode `White_Space` property.
pub fn is_whitespace(c: char) -> (r: bool)
    ensures
        r == is_white_space(c),
{
    let v = c as u32;
    (0x9 <= v && v <= 0xd) || v == 0x20 || v == 0x85 || v == 0xa0 || v == 0x1680 || (0x2000 <= v
        && v <= 0x200a) || v == 0x2028 || v == 0x2029 || v == 0x202f || v == 0x205f || v == 0x3000
}

/// Appends word `w` of `wl` characters to `out` as `place` says; returns the
/// new length of the last line.
fn place_word(out: &mut String, cur: usize, w: &String, wl: usize, max: usize) -> (r: usize)
    requires
        wl == w@.len(),
        max > 0,
    ensures
        (final(out)@, r as int) == place(old(out)@, cur as int, w@, max as int),
{
    let mut cur = cur;
    if cur > 0 && (wl >= max || cur > max - wl - 1) {
        push_char(out, '\n');
        cur = 0;
    }
    if cur > 0 {
        push_char(out, ' ');
        cur += 1;
    }
    out.append(w.as_str());
    cur + wl
}

/// Re-flows `text` into lines of at most `max_width` characters, breaking
/// only between words; a word longer than that takes a line of its own.
/// Runs of white space become one space or one line break. An empty text,
/// or a width of 0, is returned as it is.
pub fn wrap_text(text: &str, max_width: usize) -> (r: String)
    ensures
        max_width == 0 || text@.len() == 0 ==> r@ == text@,
        max_width > 0 && text@.len() > 0 ==> r@ == layout(words(text@), max_width as int).0,
{
    let n = text.unicode_len();
    if max_width == 0 || n == 0 {
        return String::from_str(text);
    }
    let mut result = String::new();
    let mut cur: usize = 0;
    let mut word = String::new();
    let mut wl: usize = 0;
    let mut i: usize = 0;
    while i < n
        invariant
            n == text@.len(),
            max_width > 0,
            i <= n,
            wl == word@.len(),
            wl <= i,
            wl > 0 <==> (i > 0 && !is_white_space(text@[i - 1])),
            wl > 0 ==> {
                let ws = words(text@.take(i as int));
                &&& ws.len() > 0
                &&& ws.last() == word@
                &&& layout(ws.drop_last(), max_width as int) == (result@, cur as int)
            },
            wl == 0 ==> layout(words(text@.take(i as int)), max_width as int) == (
                result@,
                cur as int,
            ),
        decreases n - i,
    {
        let c = text.get_char(i);
        let ghost p = text@.take(i as int);
        let ghost s = text@.take(i as int + 1);
        proof {
            assert(s.drop_last() =~= p);
            assert(s.last() == c);
            if i > 0 {
                assert(p.last() == text@[i - 1]);
            }
        }
        if is_whitespace(c) {
            if wl > 0 {
                let ghost ws = words(p);
                proof {
                    assert(ws == ws.drop_last().push(word@)) by {
                        assert(ws =~= ws.drop_last().push(ws.last()));
                    }
                }
                cur = place_word(&mut result, cur, &word, wl, max_width);
                word = String::new();
                wl = 0;
            }
        } else {
            proof {
                let w = words(p);
                if wl > 0 {
                    assert(words(s) == w.drop_last().push(w.last().push(c)));
                    assert(words(s).drop_last() =~= w.drop_last());
                } else {
                    assert(words(s) == w.push(seq![c]));
                    assert(words(s).drop_last() =~= w);
                }
            }
            push_char(&mut word, c);
            wl += 1;
        }
        i += 1;
    }
    proof {
        assert(text@.take(n as int) =~= text@);
    }
    if wl > 0 {
        let ghost ws = words(text@);
        proof {
            assert(ws == ws.drop_last().push(word@)) by {
                assert(ws =~= ws.drop_last().push(ws.last()));
            }
        }
        cur = place_word(&mut result, cur, &word, wl, max_width);
    }
    result
}

} // verus!
