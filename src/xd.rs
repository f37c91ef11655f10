//! The commenting bot's built-in replies.
use std::collections::HashMap;

use vstd::prelude::*;
use vstd::std_specs::hash::obeys_key_model;

verus! {

/// The built-in replies, each a trigger with the text that answers it.
pub open spec fn reply_table() -> Seq<(Seq<char>, Seq<char>)> {
    seq![
        ("xd"@, "XDDDDD"@),
        ("basiert"@, "> basiert\n\nbasiert auf was?"@),
        ("fokus"@, "> Fokus\n\nIch hab in den Fokus gekaggert 😎"@),
        ("focus"@, "> Focus\n\nIch hab in den Fokus gekaggert 😎"@),
        ("sus"@, "ඞ"@),
        ("das ist doch der"@, "Ich war nicht derjenige"@),
        ("shisha"@, "Merkel mach Shisha auf 😡"@),
        ("linux"@, "> linux\n\nIch benutze Bogen bei dem Weg"@),
        ("Arch"@, "> Arch\n\nIch benutze Bogen bei dem Weg"@),
        ("Bogen"@, "> Bogen\n\nIch benutze Bogen bei dem Weg"@),
        ("cringe"@, "> cringe\n\nDas Jugendwort des Jahres ist cringe. Aber was ist das eigentlich?\nCringe ist das Gefühl, dass sie haben, wenn ich den folgenden Satz sage:\n> Digga, wie fly ist eigentlich die Tagesschau, wenn sie mit Jugendwörtern flext.\n> Läuft bei dir ARD."@),
    ]
}

fn entry(trigger: &str, reply: &str) -> (r: (String, String))
    ensures
        r.0@ == trigger@,
        r.1@ == reply@,
{
    (String::from_str(trigger), String::from_str(reply))
}

/// The built-in replies as pairs of trigger and reply, in a fixed order; no
/// trigger occurs twice.
fn reply_pairs() -> (r: Vec<(String, String)>)
    ensures
        r@.len() == reply_table().len(),
        forall|i: int| 0 <= i < r@.len() ==> (#[trigger] r@[i].0@, r@[i].1@) == reply_table()[i],
        forall|i: int, j: int|
            0 <= i < j < r@.len() ==> #[trigger] r@[i].0@ != #[trigger] r@[j].0@,
{
    let mut out: Vec<(String, String)> = Vec::new();
    out.push(entry("xd", "XDDDDD"));
    out.push(entry("basiert", "> basiert\n\nbasiert auf was?"));
    out.push(entry("fokus", "> Fokus\n\nIch hab in den Fokus gekaggert 😎"));
    out.push(entry("focus", "> Focus\n\nIch hab in den Fokus gekaggert 😎"));
    out.push(entry("sus", "ඞ"));
    out.push(entry("das ist doch der", "Ich war nicht derjenige"));
    out.push(entry("shisha", "Merkel mach Shisha auf 😡"));
    out.push(entry("linux", "> linux\n\nIch benutze Bogen bei dem Weg"));
    out.push(entry("Arch", "> Arch\n\nIch benutze Bogen bei dem Weg"));
    out.push(entry("Bogen", "> Bogen\n\nIch benutze Bogen bei dem Weg"));
    out.push(entry(
        "cringe",
        "> cringe\n\nDas Jugendwort des Jahres ist cringe. Aber was ist das eigentlich?\nCringe ist das Gefühl, dass sie haben, wenn ich den folgenden Satz sage:\n> Digga, wie fly ist eigentlich die Tagesschau, wenn sie mit Jugendwörtern flext.\n> Läuft bei dir ARD.",
    ));
    proof {
        reveal_strlit("xd");
        reveal_strlit("basiert");
        reveal_strlit("fokus");
        reveal_strlit("focus");
        reveal_strlit("sus");
        reveal_strlit("das ist doch der");
        reveal_strlit("shisha");
        reveal_strlit("linux");
        reveal_strlit("Arch");
        reveal_strlit("Bogen");
        reveal_strlit("cringe");
        let t = reply_table();
        assert forall|i: int| 0 <= i < out@.len() implies (#[trigger] out@[i].0@, out@[i].1@)
            == t[i] by {}
        assert forall|i: int, j: int| 0 <= i < j < out@.len() implies #[trigger] out@[i].0@
            != #[trigger] out@[j].0@ by {
            assert(out@[i].0@ == t[i].0 && out@[j].0@ == t[j].0);
            if t[i].0.len() == t[j].0.len() {
                assert(t[i].0[0] != t[j].0[0] || t[i].0[2] != t[j].0[2]);
            }
        }
    }
    out
}

/// `m` maps a key whose text is `key` to a value whose text is `value`.
pub open spec fn has_entry(m: Map<String, String>, key: Seq<char>, value: Seq<char>) -> bool {
    exists|k: String| #[trigger] m.contains_key(k) && k@ == key && m[k]@ == value
}

/// `m` maps each trigger of `table` to its reply, and holds nothing else.
pub open spec fn holds_entries(m: Map<String, String>, table: Seq<(Seq<char>, Seq<char>)>) -> bool {
    &&& forall|i: int| 0 <= i < table.len() ==> has_entry(m, #[trigger] table[i].0, table[i].1)
    &&& forall|k: String|
        #[trigger] m.contains_key(k) ==> exists|i: int|
            0 <= i < table.len() && #[trigger] table[i] == (k@, m[k]@)
}

/// A map from the pairs, given as `table`, whose triggers are all different.
fn map_of_pairs(pairs: &Vec<(String, String)>, Ghost(table): Ghost<Seq<(Seq<char>, Seq<char>)>>) -> (r: HashMap<String, String>)
    requires
        pairs@.len() == table.len(),
        forall|j: int| 0 <= j < pairs@.len() ==> (#[trigger] pairs@[j].0@, pairs@[j].1@) == table[j],
        forall|a: int, b: int|
            0 <= a < b < pairs@.len() ==> #[trigger] pairs@[a].0@ != #[trigger] pairs@[b].0@,
    ensures
        obeys_key_model::<String>() ==> holds_entries(r@, table),
{
    broadcast use vstd::std_specs::hash::group_hash_axioms;

    let mut out: HashMap<String, String> = HashMap::new();
    let mut i: usize = 0;
    while i < pairs.len()
        invariant
            i <= pairs@.len(),
            pairs@.len() == table.len(),
            forall|j: int| 0 <= j < pairs@.len() ==> (#[trigger] pairs@[j].0@, pairs@[j].1@) == table[j],
            forall|a: int, b: int|
                0 <= a < b < pairs@.len() ==> #[trigger] pairs@[a].0@ != #[trigger] pairs@[b].0@,
            obeys_key_model::<String>() ==> forall|j: int|
                0 <= j < i ==> #[trigger] out@.contains_key(pairs@[j].0) && out@[pairs@[j].0]
                    == pairs@[j].1,
            obeys_key_model::<String>() ==> forall|k: String|
                #[trigger] out@.contains_key(k) ==> exists|j: int|
                    0 <= j < i && k == #[trigger] pairs@[j].0 && out@[k] == pairs@[j].1,
        decreases pairs@.len() - i,
    {
        let key = pairs[i].0.clone();
        let value = pairs[i].1.clone();
        out.insert(key, value);
        proof {
            if obeys_key_model::<String>() {
                assert forall|j: int| 0 <= j < i + 1 implies #[trigger] out@.contains_key(
                    pairs@[j].0,
                ) && out@[pairs@[j].0] == pairs@[j].1 by {
                    if j < i {
                        assert(pairs@[j].0@ != pairs@[i as int].0@);
                    }
                }
                assert forall|k: String| #[trigger] out@.contains_key(k) implies exists|j: int|
                    0 <= j < i + 1 && k == #[trigger] pairs@[j].0 && out@[k] == pairs@[j].1 by {
                    if k == pairs@[i as int].0 {
                        assert(k == pairs@[i as int].0 && out@[k] == pairs@[i as int].1);
                    }
                }
            }
        }
        i = i + 1;
    }
    proof {
        if obeys_key_model::<String>() {
            assert forall|j: int| 0 <= j < table.len() implies has_entry(
                out@,
                #[trigger] table[j].0,
                table[j].1,
            ) by {
                assert(out@.contains_key(pairs@[j].0) && (pairs@[j].0@, pairs@[j].1@) == table[j]);
            }
            assert forall|k: String| #[trigger] out@.contains_key(k) implies exists|j: int|
                0 <= j < table.len() && #[trigger] table[j] == (k@, out@[k]@) by {
                let j = choose|j: int|
                    0 <= j < i && k == #[trigger] pairs@[j].0 && out@[k] == pairs@[j].1;
                assert((pairs@[j].0@, pairs@[j].1@) == table[j]);
            }
        }
    }
    out
}

/// The built-in replies: each trigger mapped to the text that answers it.
///
/// What a `HashMap` holds is known only for key types whose hashing and
/// equality agree with their model; under that condition the map holds
/// exactly the table.
pub fn replies() -> (r: HashMap<String, String>)
    ensures
        obeys_key_model::<String>() ==> holds_entries(r@, reply_table()),
{
    let pairs = reply_pairs();
    map_of_pairs(&pairs, Ghost(reply_table()))
}

} // verus!
