use vstd::prelude::*;

use crate::text::{has_prefix, starts_with};

verus! {

pub open spec fn texts(v: Seq<String>) -> Seq<Seq<char>> {
    v.map_values(|s: String| s@)
}

/// The entries that begin with `prefix`, in their order.
pub open spec fn matching(entries: Seq<Seq<char>>, prefix: Seq<char>) -> Seq<Seq<char>>
    decreases entries.len(),
{
    if entries.len() == 0 {
        Seq::empty()
    } else {
        let rest = matching(entries.drop_last(), prefix);
        if has_prefix(entries.last(), prefix) {
            rest.push(entries.last())
        } else {
            rest
        }
    }
}

/// `offer` as the only candidate where it begins with `input`, else none.
pub open spec fn offer_if(word: Seq<char>, offer: Seq<char>, input: Seq<char>) -> Seq<Seq<char>> {
    if has_prefix(word, input) {
        seq![offer]
    } else {
        Seq::empty()
    }
}

/// Where the replacement starts in the line typed so far.
pub open spec fn completion_start(input: Seq<char>) -> int {
    if has_prefix(input, "cd "@) {
        3
    } else {
        0
    }
}

/// After `cd `, the directory entries that begin with what follows it; else
/// `cd ` where the input could still become it, then each command word that
/// begins with the input.
pub open spec fn candidates(input: Seq<char>, entries: Seq<Seq<char>>) -> Seq<Seq<char>> {
    if has_prefix(input, "cd "@) {
        matching(entries, input.subrange(3, input.len() as int))
    } else {
        offer_if("cd"@, "cd "@, input) + offer_if("q"@, "q"@, input) + offer_if("quit"@, "quit"@, input)
            + offer_if(".."@, ".."@, input) + offer_if("up"@, "up"@, input) + offer_if("help"@, "help"@, input)
    }
}

fn offer_word(out: &mut Vec<String>, word: &str, offer: &str, input: &str)
    ensures
        texts(final(out)@) == texts(old(out)@) + offer_if(word@, offer@, input@),
{
    let ghost before = texts(out@);
    if starts_with(word, input) {
        out.push(String::from_str(offer));
        proof {
            assert(texts(out@) =~= before + seq![offer@]);
        }
    } else {
        proof {
            assert(texts(out@) =~= before + Seq::<Seq<char>>::empty());
        }
    }
}

/// Completion of the line typed so far: where the replacement starts, and
/// the candidates.
pub fn complete(input: &str, entries: &Vec<String>) -> (r: (usize, Vec<String>))
    ensures
        r.0 as int == completion_start(input@),
        texts(r.1@) == candidates(input@, texts(entries@)),
{
    let mut out: Vec<String> = Vec::new();
    if starts_with(input, "cd ") {
        proof {
            reveal_strlit("cd ");
        }
        let partial = input.substring_char(3, input.unicode_len());
        let ghost all = texts(entries@);
        let mut i: usize = 0;
        while i < entries.len()
            invariant
                i <= entries.len(),
                all == texts(entries@),
                partial@ == input@.subrange(3, input@.len() as int),
                texts(out@) == matching(all.subrange(0, i as int), partial@),
            decreases entries.len() - i,
        {
            proof {
                assert(all.subrange(0, i + 1).drop_last() =~= all.subrange(0, i as int));
            }
            let ghost before = texts(out@);
            if starts_with(entries[i].as_str(), partial) {
                out.push(entries[i].clone());
                proof {
                    assert(texts(out@) =~= before.push(all[i as int]));
                }
            }
            i = i + 1;
        }
        proof {
            assert(all.subrange(0, i as int) =~= all);
        }
        (3, out)
    } else {
        proof {
            assert(texts(out@) =~= Seq::<Seq<char>>::empty());
        }
        offer_word(&mut out, "cd", "cd ", input);
        offer_word(&mut out, "q", "q", input);
        offer_word(&mut out, "quit", "quit", input);
        offer_word(&mut out, "..", "..", input);
        offer_word(&mut out, "up", "up", input);
        offer_word(&mut out, "help", "help", input);
        proof {
            assert(Seq::<Seq<char>>::empty() + offer_if("cd"@, "cd "@, input@) =~= offer_if("cd"@, "cd "@, input@));
        }
        (0, out)
    }
}

} // verus!
