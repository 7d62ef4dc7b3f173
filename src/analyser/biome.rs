//! Biome: a header `path:row:col rule ━━━…` with the description two lines
//! below it, after a decoration.

use crate::text::{
    concat, ends_with, is_suffix, lines_of, log_lines, number_or_zero, number_or_zero_of,
    skip_bytes, skipped_bytes, split_char, split_first, split_on, split_once, trim, trimmed, views,
    lemma_split_char_len,
};
use crate::types::{
    location, message_at, messages_view, push_message, single, LocationView, Message, MessageView,
    new_location,
};
use vstd::prelude::*;

verus! {

/// The location at the start of a header; a path may hold one colon (a
/// drive letter), when the location has four parts.
pub open spec fn header_location(line: Seq<char>) -> Option<LocationView> {
    match split_once(line, seq![' ']) {
        Some((loc, _)) => {
            let ps = split_char(loc, ':');
            if ps.len() == 4 {
                Some(
                    location(
                        trim(ps[0]) + seq![':'] + trim(ps[1]),
                        number_or_zero(trim(ps[2])),
                        number_or_zero(trim(ps[3])),
                    ),
                )
            } else if ps.len() >= 3 {
                Some(
                    location(trim(ps[0]), number_or_zero(trim(ps[1])), number_or_zero(trim(ps[2]))),
                )
            } else {
                None
            }
        },
        None => None,
    }
}

/// The message whose header is line `i`; the description loses its first
/// five bytes of decoration.
pub open spec fn biome_at(lines: Seq<Seq<char>>, i: int) -> Seq<MessageView> {
    if is_suffix("━━━━━━━━━━"@, lines[i]) && i + 2 < lines.len() {
        match header_location(lines[i]) {
            Some(l) => match skip_bytes(lines[i + 2], 5) {
                Some(d) => seq![message_at(d, l)],
                None => Seq::empty(),
            },
            None => Seq::empty(),
        }
    } else {
        Seq::empty()
    }
}

/// The messages of the first `n` lines.
pub open spec fn biome_upto(lines: Seq<Seq<char>>, n: int) -> Seq<MessageView>
    decreases n,
{
    if n <= 0 {
        Seq::empty()
    } else {
        biome_upto(lines, n - 1) + biome_at(lines, n - 1)
    }
}

/// The messages of a Biome log.
pub open spec fn biome_messages(lines: Seq<Seq<char>>) -> Seq<MessageView> {
    biome_upto(lines, lines.len() as int)
}

fn parse_header(line: &[char]) -> (r: Option<crate::types::Location>)
    ensures
        crate::types::opt_location_view(r) == header_location(line@),
{
    let space = [' '];
    assert(space@ =~= seq![' ']);
    let (loc, _) = split_first(line, space.as_slice())?;
    let ps = split_on(loc, ':');
    proof {
        lemma_split_char_len(loc@, ':');
    }
    if ps.len() == 4 {
        assert(ps@[0]@ == split_char(loc@, ':')[0]);
        assert(ps@[1]@ == split_char(loc@, ':')[1]);
        assert(ps@[2]@ == split_char(loc@, ':')[2]);
        assert(ps@[3]@ == split_char(loc@, ':')[3]);
        let colon = [':'];
        assert(colon@ =~= seq![':']);
        let a = concat(trimmed(ps[0].as_slice()), colon.as_slice());
        let path = concat(a.as_slice(), trimmed(ps[1].as_slice()));
        Some(
            new_location(
                path.as_slice(),
                number_or_zero_of(trimmed(ps[2].as_slice())),
                number_or_zero_of(trimmed(ps[3].as_slice())),
            ),
        )
    } else if ps.len() >= 3 {
        assert(ps@[0]@ == split_char(loc@, ':')[0]);
        assert(ps@[1]@ == split_char(loc@, ':')[1]);
        assert(ps@[2]@ == split_char(loc@, ':')[2]);
        Some(
            new_location(
                trimmed(ps[0].as_slice()),
                number_or_zero_of(trimmed(ps[1].as_slice())),
                number_or_zero_of(trimmed(ps[2].as_slice())),
            ),
        )
    } else {
        None
    }
}

/// Finds Biome's diagnostics in `log`; the paths are as Biome wrote them.
pub fn analyse(log: &str, _project_dir: &str) -> (r: Vec<Message>)
    ensures
        messages_view(r@) == biome_messages(lines_of(log@)),
{
    let lines = log_lines(log);
    let mut errors: Vec<Message> = Vec::new();
    let mut i: usize = 0;
    while i < lines.len()
        invariant
            i <= lines.len(),
            views(lines@) == lines_of(log@),
            messages_view(errors@) == biome_upto(views(lines@), i as int),
        decreases lines.len() - i,
    {
        let ghost before = messages_view(errors@);
        let line = lines[i].as_slice();
        if ends_with(line, "━━━━━━━━━━") && lines.len() - i > 2 {
            if let Some(l) = parse_header(line) {
                if let Some(d) = skipped_bytes(lines[i + 2].as_slice(), 5) {
                    push_message(&mut errors, single(d, l));
                }
            }
        }
        assert(messages_view(errors@) =~= before + biome_at(views(lines@), i as int));
        i += 1;
    }
    errors
}

} // verus!
