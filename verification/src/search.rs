//! The search for a text whose glyph shows a wanted pattern: candidates are
//! tried by growing length, those of one length in the order of their
//! enumeration, and the first whose mask is the target ends the search.

use vstd::prelude::*;
use crate::combinations::{combinations, length_zero_is_the_empty_text, Candidates, MAX_LENGTH};
use crate::glyph::{glyph_of, make_image, mask_of, shows, Glyph};
use crate::pattern::Palette;

verus! {

/// Whether the glyph of `text` shows the target mask.
pub open spec fn hits(text: Seq<char>, target: Seq<bool>, palette: Seq<(u8, u8, u8)>) -> bool {
    mask_of(glyph_of(text, palette)) == target
}

/// Whether none of the first `end` candidates hits the target.
pub open spec fn none_hits(
    candidates: Seq<Seq<char>>,
    end: int,
    target: Seq<bool>,
    palette: Seq<(u8, u8, u8)>,
) -> bool {
    forall|i: int| 0 <= i < end ==> !hits(#[trigger] candidates[i], target, palette)
}

/// Whether no candidate of `length` symbols hits the target.
pub open spec fn length_misses(
    alphabet: Seq<char>,
    length: nat,
    target: Seq<bool>,
    palette: Seq<(u8, u8, u8)>,
) -> bool {
    none_hits(
        combinations(alphabet, length),
        combinations(alphabet, length).len() as int,
        target,
        palette,
    )
}

/// Whether `text` is the first candidate of `length` symbols that hits the
/// target.
pub open spec fn first_hit(
    text: Seq<char>,
    alphabet: Seq<char>,
    length: nat,
    target: Seq<bool>,
    palette: Seq<(u8, u8, u8)>,
) -> bool {
    exists|i: int|
        0 <= i < combinations(alphabet, length).len() && #[trigger] combinations(
            alphabet,
            length,
        )[i] == text && hits(text, target, palette) && none_hits(
            combinations(alphabet, length),
            i,
            target,
            palette,
        )
}

/// What a search found: the text and the glyph that it draws.
pub struct Match {
    pub text: String,
    pub glyph: Glyph,
}

/// Tries the candidates of `length` symbols over `alphabet` in the order of
/// their enumeration. Gives the first whose glyph shows `target`, with that
/// glyph, or `None` if none of that length does. The length may be any that
/// the machine can hold a candidate of.
pub fn search_length(
    target: &[bool; 25],
    alphabet: &Vec<char>,
    palette: &Palette,
    length: usize,
) -> (found: Option<Match>)
    requires
        length <= MAX_LENGTH,
    ensures
        match found {
            Some(hit) => {
                &&& first_hit(hit.text@, alphabet@, length as nat, target@, palette@)
                &&& hit.glyph@ == glyph_of(hit.text@, palette@)
            },
            None => length_misses(alphabet@, length as nat, target@, palette@),
        },
{
    let mut candidates = Candidates::new(alphabet, length);
    let ghost all = candidates@;
    let ghost mut tried: int = 0;
    loop
        invariant
            all == combinations(alphabet@, length as nat),
            0 <= tried <= all.len(),
            candidates@ == all.skip(tried),
            none_hits(all, tried, target@, palette@),
        decreases all.len() - tried,
    {
        match candidates.next() {
            None => {
                return None;
            },
            Some(text) => {
                let glyph = make_image(text.as_str(), palette);
                assert(text@ == all[tried]);
                if shows(&glyph, target) {
                    return Some(Match { text, glyph });
                }
                proof {
                    assert(all.skip(tried).skip(1) =~= all.skip(tried + 1));
                    tried = tried + 1;
                }
            },
        }
    }
}

/// The search begins with the empty text, whatever the alphabet: at length 0
/// it is the first and only candidate, so length 0 misses exactly when the
/// empty text does, and a first hit of length 0 is the empty text.
pub proof fn search_begins_with_the_empty_text(
    alphabet: Seq<char>,
    target: Seq<bool>,
    palette: Seq<(u8, u8, u8)>,
)
    ensures
        length_misses(alphabet, 0, target, palette) <==> !hits(
            Seq::<char>::empty(),
            target,
            palette,
        ),
        forall|text: Seq<char>|
            #[trigger] first_hit(text, alphabet, 0, target, palette) <==> (text == Seq::<
                char,
            >::empty() && hits(text, target, palette)),
{
    length_zero_is_the_empty_text(alphabet);
    let only = combinations(alphabet, 0);
    assert(only[0] == Seq::<char>::empty());
    assert forall|text: Seq<char>|
        (text == Seq::<char>::empty() && hits(text, target, palette)) implies #[trigger] first_hit(
        text,
        alphabet,
        0,
        target,
        palette,
    ) by {
        assert(only[0] == text && none_hits(only, 0, target, palette));
    }
}

/// The length at which a search stops: the one asked for, or the longest
/// that can be enumerated where more is asked.
pub fn cap_length(asked: usize) -> (length: usize)
    ensures
        length == (if asked <= MAX_LENGTH {
            asked
        } else {
            MAX_LENGTH
        }),
{
    if asked <= MAX_LENGTH {
        asked
    } else {
        MAX_LENGTH
    }
}

/// What a search does after it has tried all candidates of `length`
/// symbols: it ends if one of them was found or the cutoff is reached, and
/// goes on with the next length otherwise.
pub fn next_length(found: bool, length: usize, max_length: usize) -> (next: Option<usize>)
    requires
        length <= max_length,
    ensures
        next == (if !found && length < max_length {
            Some((length + 1) as usize)
        } else {
            None
        }),
{
    if !found && length < max_length {
        Some(length + 1)
    } else {
        None
    }
}

/// Searches the candidates over `alphabet` by growing length, from the empty
/// text up to `max_length` symbols. Gives the first candidate whose glyph
/// shows `target`, with that glyph. `None` tells that the lengths up to
/// `max_length` hold no such candidate: the cutoff was reached. The cutoff
/// may be any length that the machine can hold a candidate of.
pub fn search(target: &[bool; 25], alphabet: &Vec<char>, palette: &Palette, max_length: usize) -> (found:
    Option<Match>)
    requires
        max_length <= MAX_LENGTH,
    ensures
        match found {
            Some(hit) => exists|length: nat|
                {
                    &&& length <= max_length
                    &&& #[trigger] first_hit(hit.text@, alphabet@, length, target@, palette@)
                    &&& forall|shorter: nat|
                        shorter < length ==> #[trigger] length_misses(
                            alphabet@,
                            shorter,
                            target@,
                            palette@,
                        )
                    &&& hit.glyph@ == glyph_of(hit.text@, palette@)
                },
            None => forall|length: nat|
                length <= max_length ==> #[trigger] length_misses(
                    alphabet@,
                    length,
                    target@,
                    palette@,
                ),
        },
{
    let mut length: usize = 0;
    loop
        invariant
            length <= max_length <= MAX_LENGTH,
            forall|shorter: nat|
                shorter < length ==> #[trigger] length_misses(
                    alphabet@,
                    shorter,
                    target@,
                    palette@,
                ),
        decreases max_length - length,
    {
        let found = search_length(target, alphabet, palette, length);
        match next_length(found.is_some(), length, max_length) {
            Some(longer) => {
                length = longer;
            },
            None => {
                return found;
            },
        }
    }
}

/// The characters of `text` that are not spaces, in order.
pub open spec fn visible(text: Seq<char>) -> Seq<char> {
    text.filter(|symbol: char| symbol != ' ')
}

/// The target mask that `text` spells: entry `i` is on where the `i`-th
/// visible character exists and is not the digit `0`. Visible characters
/// from the 26th on do not count.
pub open spec fn spelled_mask(text: Seq<char>) -> Seq<bool> {
    Seq::new(25, |i: int| i < visible(text).len() && visible(text)[i] != '0')
}

/// Reads a target mask from `text`. Spaces only align the cells for the eye
/// and are skipped. Of the other characters the first 25 fill the mask row
/// by row: the digit `0` leaves a cell off, any other character turns it on.
/// Cells that `text` does not reach stay off, and characters beyond the 25th
/// are ignored; no text is refused.
pub fn parse_mask(text: &str) -> (mask: [bool; 25])
    ensures
        mask@ == spelled_mask(text@),
{
    broadcast use vstd::string::group_string_axioms;

    let mut mask = [false; 25];
    let mut filled: usize = 0;
    for symbol in iter: text.chars()
        invariant
            iter.seq() == text@,
            filled <= 25,
            filled == 25 || filled == visible(text@.take(iter.index())).len(),
            filled <= visible(text@.take(iter.index())).len(),
            forall|i: int|
                0 <= i < 25 ==> mask[i] == (i < visible(text@.take(iter.index())).len() && visible(
                    text@.take(iter.index()),
                )[i] != '0'),
    {
        proof {
            let before = text@.take(iter.index());
            let after = text@.take(iter.index() + 1);
            assert(after.drop_last() =~= before);
            assert(after.last() == symbol);
            reveal(Seq::filter);
            assert(visible(after) == if symbol != ' ' {
                visible(before).push(symbol)
            } else {
                visible(before)
            });
        }
        if symbol != ' ' && filled < 25 {
            mask[filled] = symbol != '0';
            filled = filled + 1;
        }
    }
    assert(text@.take(text@.len() as int) =~= text@);
    assert(mask@ =~= spelled_mask(text@));
    mask
}

/// Whether `text` has more visible characters than a mask has cells, so that
/// `parse_mask` leaves some of them unread.
pub fn exceeds_mask(text: &str) -> (over: bool)
    ensures
        over == (visible(text@).len() > 25),
{
    broadcast use vstd::string::group_string_axioms;

    let mut seen: usize = 0;
    for symbol in iter: text.chars()
        invariant
            iter.seq() == text@,
            seen <= 26,
            seen == 26 || seen == visible(text@.take(iter.index())).len(),
            seen <= visible(text@.take(iter.index())).len(),
    {
        proof {
            let before = text@.take(iter.index());
            let after = text@.take(iter.index() + 1);
            assert(after.drop_last() =~= before);
            assert(after.last() == symbol);
            reveal(Seq::filter);
            assert(visible(after) == if symbol != ' ' {
                visible(before).push(symbol)
            } else {
                visible(before)
            });
        }
        if symbol != ' ' && seen < 26 {
            seen = seen + 1;
        }
    }
    assert(text@.take(text@.len() as int) =~= text@);
    seen > 25
}

} // verus!
