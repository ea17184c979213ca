//! Texts of which nothing but an empty object is left.

use vstd::prelude::*;

verus! {

/// The Unicode characters with the White_Space property.
pub open spec fn is_white_space(c: char) -> bool {
    ||| 0x9 <= c as u32 <= 0xd
    ||| c as u32 == 0x20
    ||| c as u32 == 0x85
    ||| c as u32 == 0xa0
    ||| c as u32 == 0x1680
    ||| 0x2000 <= c as u32 <= 0x200a
    ||| c as u32 == 0x2028
    ||| c as u32 == 0x2029
    ||| c as u32 == 0x202f
    ||| c as u32 == 0x205f
    ||| c as u32 == 0x3000
}

/// `char::is_whitespace`: whether the character has the Unicode property White_Space.
pub assume_specification[ char::is_whitespace ](c: char) -> (r: bool)
    ensures
        r == is_white_space(c),
;

/// A text of an empty object and white space: no comment, no setting, no other plugin.
pub open spec fn is_empty_object(text: Seq<char>) -> bool {
    text.filter(|c: char| !is_white_space(c)) == seq!['{', '}']
}

/// Whether nothing but an empty object is left of a text.
pub fn text_is_empty_object(text: &str) -> (empty: bool)
    ensures
        empty == is_empty_object(text@),
{
    let mut kept: Vec<char> = Vec::new();
    for c in it: text.chars()
        invariant
            it.seq() == text@,
            kept@ == text@.take(it.index()).filter(|c: char| !is_white_space(c)),
    {
        proof {
            assert(text@.take(it.index() + 1).drop_last() =~= text@.take(it.index()));
            reveal(Seq::filter);
        }
        if !c.is_whitespace() {
            kept.push(c);
        }
    }
    assert(text@.take(text@.len() as int) =~= text@);
    let empty: bool = kept.len() == 2 && kept[0] == '{' && kept[1] == '}';
    assert(empty == (kept@ =~= seq!['{', '}']));
    empty
}

/// A text is of an empty object and white space just where it has one opening brace, one closing
/// brace behind it, and white space everywhere else.
pub proof fn law_empty_object_is_two_braces(text: Seq<char>)
    ensures
        is_empty_object(text) <==> exists|open: int, close: int|
            0 <= open < close < text.len() && #[trigger] text[open] == '{' && #[trigger] text[close]
                == '}' && forall|i: int|
                0 <= i < text.len() && i != open && i != close ==> is_white_space(
                    #[trigger] text[i],
                ),
{
    let keeps = |c: char| !is_white_space(c);
    let at = lemma_kept_places(text);
    let kept = text.filter(keeps);
    if is_empty_object(text) {
        assert(kept[0] == '{' && kept[1] == '}');
        assert(text[at[0]] == '{' && text[at[1]] == '}');
        assert forall|i: int|
            0 <= i < text.len() && i != at[0] && i != at[1] implies is_white_space(
            #[trigger] text[i],
        ) by {
            if !is_white_space(text[i]) {
                let k = choose|k: int| 0 <= k < at.len() && at[k] == i;
                assert(k == 0 || k == 1);
            }
        }
    }
    if exists|open: int, close: int|
        0 <= open < close < text.len() && #[trigger] text[open] == '{' && #[trigger] text[close]
            == '}' && forall|i: int|
            0 <= i < text.len() && i != open && i != close ==> is_white_space(#[trigger] text[i]) {
        let (open, close) = choose|open: int, close: int|
            0 <= open < close < text.len() && #[trigger] text[open] == '{' && #[trigger] text[close]
                == '}' && forall|i: int|
                0 <= i < text.len() && i != open && i != close ==> is_white_space(
                    #[trigger] text[i],
                );
        assert(at.contains(open) && at.contains(close));
        let k = choose|k: int| 0 <= k < at.len() && at[k] == open;
        let l = choose|l: int| 0 <= l < at.len() && at[l] == close;
        assert(k < l) by {
            if l < k {
                assert(at[l] < at[k]);
            }
        }
        assert forall|m: int| 0 <= m < at.len() implies #[trigger] at[m] == open || at[m]
            == close by {
            assert(!is_white_space(text[at[m]]));
        }
        assert(at.len() == 2) by {
            if at.len() > 2 {
                assert(at[0] < at[1] && at[1] < at[2]);
            }
        }
        assert(kept =~= seq!['{', '}']);
    }
}

/// Where the characters stand that are no white space.
proof fn lemma_kept_places(text: Seq<char>) -> (at: Seq<int>)
    ensures
        at.len() == text.filter(|c: char| !is_white_space(c)).len(),
        forall|k: int|
            0 <= k < at.len() ==> 0 <= #[trigger] at[k] < text.len() && !is_white_space(
                text[at[k]],
            ) && text.filter(|c: char| !is_white_space(c))[k] == text[at[k]],
        forall|k: int, l: int| 0 <= k < l < at.len() ==> #[trigger] at[k] < #[trigger] at[l],
        forall|i: int|
            0 <= i < text.len() && !is_white_space(#[trigger] text[i]) ==> at.contains(i),
    decreases text.len(),
{
    reveal(Seq::filter);
    if text.len() == 0 {
        Seq::empty()
    } else {
        let front = text.drop_last();
        let last = text.len() - 1;
        let before = lemma_kept_places(front);
        assert forall|i: int| 0 <= i < last && !is_white_space(
            #[trigger] text[i],
        ) implies before.contains(i) by {
            assert(front[i] == text[i]);
        }
        if is_white_space(text[last]) {
            before
        } else {
            let at = before.push(last);
            assert forall|i: int| 0 <= i < text.len() && !is_white_space(
                #[trigger] text[i],
            ) implies at.contains(i) by {
                if i == last {
                    assert(at[before.len() as int] == i);
                } else {
                    let k = choose|k: int| 0 <= k < before.len() && before[k] == i;
                    assert(at[k] == i);
                }
            }
            at
        }
    }
}

/// An empty object on a line of its own is such a text.
pub proof fn lemma_empty_object_line()
    ensures
        is_empty_object(seq!['{', '}', '\n']),
{
    let text = seq!['{', '}', '\n'];
    let keeps = |c: char| !is_white_space(c);
    assert(text.drop_last() =~= seq!['{', '}']);
    assert(text.drop_last().drop_last() =~= seq!['{']);
    assert(text.drop_last().drop_last().drop_last() =~= Seq::empty());
    reveal_with_fuel(Seq::filter, 4);
    assert(text.filter(keeps) =~= seq!['{', '}']);
}

} // verus!
