//! The JSON text of a reply that may come as an event stream.

use crate::text;
use vstd::prelude::*;

verus! {

/// The JSON object that a line of an event stream carries: what follows `data: `, without the
/// white space around it, if it begins with a brace.
pub open spec fn data_of(line: Seq<char>) -> Option<Seq<char>> {
    if text::starts_with(line, "data: "@) {
        let data = text::trim(line.skip("data: "@.len() as int));
        if text::starts_with(data, seq!['{']) {
            Some(data)
        } else {
            None
        }
    } else {
        None
    }
}

/// The first JSON object that one of `lines` carries.
pub open spec fn first_data(lines: Seq<Seq<char>>) -> Option<Seq<char>>
    decreases lines.len(),
{
    if lines.len() == 0 {
        None
    } else {
        match data_of(lines[0]) {
            Some(data) => Some(data),
            None => first_data(lines.drop_first()),
        }
    }
}

/// The first JSON object that a line of one of `blocks` carries.
pub open spec fn first_block_data(blocks: Seq<Seq<char>>) -> Option<Seq<char>>
    decreases blocks.len(),
{
    if blocks.len() == 0 {
        None
    } else {
        match first_data(text::lines(blocks[0])) {
            Some(data) => Some(data),
            None => first_block_data(blocks.drop_first()),
        }
    }
}

/// The JSON text in `body`: the whole of it if it begins with a brace, else the first JSON object
/// among the data lines of its events. An error names the body.
pub open spec fn json_body(body: Seq<char>) -> Result<Seq<char>, Seq<char>> {
    let trimmed = text::trim(body);
    if text::starts_with(trimmed, seq!['{']) {
        Ok(trimmed)
    } else {
        match first_block_data(text::split(trimmed, seq!['\n', '\n'])) {
            Some(data) => Ok(data),
            None => Err("could not extract JSON from response: "@ + trimmed),
        }
    }
}

/// Finds the first JSON object that one of `lines` carries.
fn find_data(lines: &Vec<&[char]>) -> (r: Option<String>)
    ensures
        match r {
            Some(data) => first_data(text::texts(lines@)) == Some(data@),
            None => first_data(text::texts(lines@)) is None,
        },
{
    let prefix = text::to_chars("data: ");
    let brace: [char; 1] = ['{'];
    assert(brace@ == seq!['{']);
    let ghost all = text::texts(lines@);
    assert(all.skip(0) == all);
    let mut i: usize = 0;
    while i < lines.len()
        invariant
            i <= lines@.len(),
            prefix@ == "data: "@,
            brace@ == seq!['{'],
            all == text::texts(lines@),
            first_data(all) == first_data(all.skip(i as int)),
        decreases lines@.len() - i,
    {
        assert(all.skip(i as int)[0] == lines@[i as int]@);
        assert(all.skip(i as int).drop_first() == all.skip(i + 1));
        let line = lines[i];
        if text::matches_at(line, prefix.as_slice(), 0) {
            let data = text::trimmed(text::cut(line, prefix.len(), line.len()));
            assert(line@.skip("data: "@.len() as int) == line@.subrange(
                prefix@.len() as int,
                line@.len() as int,
            ));
            if text::matches_at(data, brace.as_slice(), 0) {
                return Some(text::to_text(data));
            }
        }
        i += 1;
    }
    assert(all.skip(i as int) == Seq::<Seq<char>>::empty());
    None
}

/// Extracts the JSON text from the body of a reply.
pub fn extract_json_body(body: &str) -> (r: Result<String, String>)
    ensures
        match r {
            Ok(json) => json_body(body@) == Ok::<Seq<char>, Seq<char>>(json@),
            Err(message) => json_body(body@) == Err::<Seq<char>, Seq<char>>(message@),
        },
{
    let chars = text::to_chars(body);
    let trimmed = text::trimmed(chars.as_slice());
    let brace: [char; 1] = ['{'];
    let blank: [char; 2] = ['\n', '\n'];
    assert(brace@ == seq!['{']);
    assert(blank@ == seq!['\n', '\n']);
    if text::matches_at(trimmed, brace.as_slice(), 0) {
        return Ok(text::to_text(trimmed));
    }
    let blocks = text::all_pieces(trimmed, blank.as_slice());
    let ghost all = text::texts(blocks@);
    assert(all.skip(0) == all);
    let mut i: usize = 0;
    while i < blocks.len()
        invariant
            i <= blocks@.len(),
            all == text::texts(blocks@),
            trimmed@ == text::trim(body@),
            !text::starts_with(trimmed@, seq!['{']),
            all == text::split(trimmed@, seq!['\n', '\n']),
            first_block_data(all) == first_block_data(all.skip(i as int)),
        decreases blocks@.len() - i,
    {
        assert(all.skip(i as int)[0] == blocks@[i as int]@);
        assert(all.skip(i as int).drop_first() == all.skip(i + 1));
        let lines = text::all_lines(blocks[i]);
        if let Some(data) = find_data(&lines) {
            return Ok(data);
        }
        i += 1;
    }
    assert(all.skip(i as int) == Seq::<Seq<char>>::empty());
    let mut message = "could not extract JSON from response: ".to_string();
    message.append(text::to_text(trimmed).as_str());
    Err(message)
}

} // verus!
