//! The text of the information row: model, cache and memory lines as the
//! dashboard shows them.

use vstd::prelude::*;
use crate::text::{push_str, string_from_chars};

verus! {

/// `"{key}: {value}"`.
pub open spec fn entry_text(key: Seq<char>, value: Seq<char>) -> Seq<char> {
    key + seq![':', ' '] + value
}

/// The entries' texts, in order.
pub open spec fn entry_texts(m: Seq<(String, String)>) -> Seq<Seq<char>> {
    m.map_values(|p: (String, String)| entry_text(p.0@, p.1@))
}

/// The parts joined, `sep` between each two.
pub open spec fn joined(parts: Seq<Seq<char>>, sep: Seq<char>) -> Seq<char>
    decreases parts.len(),
{
    if parts.len() == 0 {
        Seq::empty()
    } else if parts.len() == 1 {
        parts[0]
    } else {
        joined(parts.drop_last(), sep) + sep + parts.last()
    }
}

/// The line of one entry: `"{key}: {value}"`.
pub fn entry_line(key: &String, value: &String) -> (s: String)
    ensures
        s@ == entry_text(key@, value@),
{
    let mut out: Vec<char> = Vec::new();
    push_str(&mut out, key.as_str());
    out.push(':');
    out.push(' ');
    push_str(&mut out, value.as_str());
    assert(out@ =~= entry_text(key@, value@));
    string_from_chars(&out)
}

/// The lines of the model box: one `"{key}: {value}"` line per entry, none
/// without a model.
pub fn model_lines(model: &Option<Vec<(String, String)>>) -> (v: Vec<String>)
    ensures
        model is None ==> v@.len() == 0,
        model matches Some(m) ==> v@.map_values(|s: String| s@) == entry_texts(m@),
{
    let mut v: Vec<String> = Vec::new();
    match model {
        None => {},
        Some(m) => {
            for i in 0..m.len()
                invariant
                    v@.map_values(|s: String| s@) == entry_texts(m@).take(i as int),
            {
                let line = entry_line(&m[i].0, &m[i].1);
                v.push(line);
                assert(entry_texts(m@).take(i + 1) =~= entry_texts(m@).take(i as int).push(
                    entry_texts(m@)[i as int],
                ));
                assert(v@.map_values(|s: String| s@) =~= entry_texts(m@).take(i + 1));
            }
            assert(entry_texts(m@).take(m.len() as int) =~= entry_texts(m@));
        },
    }
    v
}

/// The lines of the cache box: the entries on one line, `" | "` between
/// them; a note where the cache is not known.
pub fn cache_lines(cache: &Option<Vec<(String, String)>>) -> (v: Vec<String>)
    ensures
        v@.len() == 1,
        cache is None ==> v@[0]@ == "Cache info not available"@,
        cache matches Some(m) ==> v@[0]@ == joined(entry_texts(m@), seq![' ', '|', ' ']),
{
    match cache {
        None => {
            let mut v: Vec<String> = Vec::new();
            v.push(String::from_str("Cache info not available"));
            v
        },
        Some(m) => {
            let ghost parts = entry_texts(m@);
            let mut out: Vec<char> = Vec::new();
            for i in 0..m.len()
                invariant
                    parts == entry_texts(m@),
                    out@ == joined(parts.take(i as int), seq![' ', '|', ' ']),
            {
                let line = entry_line(&m[i].0, &m[i].1);
                if i > 0 {
                    out.push(' ');
                    out.push('|');
                    out.push(' ');
                }
                push_str(&mut out, line.as_str());
                proof {
                    let t = parts.take(i + 1);
                    assert(t.drop_last() =~= parts.take(i as int));
                    assert(t.last() == line@);
                    if i == 0 {
                        assert(t =~= seq![line@]);
                    }
                }
            }
            assert(parts.take(m.len() as int) =~= parts);
            let mut v: Vec<String> = Vec::new();
            v.push(string_from_chars(&out));
            v
        },
    }
}

/// The lines of the memory box: the memory lines as they are, a note where
/// memory is not known.
pub fn memory_lines(memory: Option<Vec<String>>) -> (v: Vec<String>)
    ensures
        memory is None ==> v@.len() == 1 && v@[0]@ == "No mem info"@,
        memory matches Some(m) ==> v@ == m@,
{
    match memory {
        None => {
            let mut v: Vec<String> = Vec::new();
            v.push(String::from_str("No mem info"));
            v
        },
        Some(m) => m,
    }
}

} // verus!
