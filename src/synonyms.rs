use crate::dictionary::{distinct_in_order, Dictionary};
use crate::layout::KbdLayout;
use crate::text::{lower_of, lowercase};
use crate::translator::{translate_seq, translation_map, Translator};
use vstd::prelude::*;
use vstd::string::StringExecFns;
use vstd::utf8::encode_utf8;

verus! {

/// The length of a word in bytes, as UTF-8 encodes it.
pub open spec fn byte_len(w: Seq<char>) -> nat {
    encode_utf8(w).len()
}

/// The synonym of an already lower-cased word: its translation, where every
/// character translates and the result is a known word.
pub open spec fn lowered_synonym(m: Map<char, char>, known: Set<Seq<char>>, lw: Seq<char>) -> Option<
    Seq<char>,
> {
    match translate_seq(m, lw) {
        Some(t) => if known.contains(t) {
            Some(t)
        } else {
            None
        },
        None => None,
    }
}

/// The synonym of `w`: none for a word shorter than `min_len` bytes, else
/// that of its lower-case form.
pub open spec fn synonym_of(m: Map<char, char>, known: Set<Seq<char>>, min_len: nat, w: Seq<char>) -> Option<
    Seq<char>,
> {
    if byte_len(w) < min_len {
        None
    } else {
        lowered_synonym(m, known, lower_of(w))
    }
}

/// The pairs (word, synonym) for the words of `ws` that have a synonym, in
/// the order of `ws`.
pub open spec fn synonym_pairs(
    m: Map<char, char>,
    known: Set<Seq<char>>,
    min_len: nat,
    ws: Seq<Seq<char>>,
) -> Seq<(Seq<char>, Seq<char>)>
    decreases ws.len(),
{
    if ws.len() == 0 {
        Seq::empty()
    } else {
        let prev = synonym_pairs(m, known, min_len, ws.drop_last());
        match synonym_of(m, known, min_len, ws.last()) {
            Some(t) => prev.push((ws.last(), t)),
            None => prev,
        }
    }
}

/// The views of a list of string pairs.
pub open spec fn pairs_view(ps: Seq<(String, String)>) -> Seq<(Seq<char>, Seq<char>)> {
    ps.map_values(|p: (String, String)| (p.0@, p.1@))
}

/// The synonym of a word that is already in lower case.
pub fn synonym_of_lowered(tr: &Translator, dict: &Dictionary, lowered: &str) -> (r: Option<String>)
    requires
        dict.wf(),
    ensures
        match lowered_synonym(tr@, dict.word_set(), lowered@) {
            Some(t) => r is Some && r->0@ == t,
            None => r is None,
        },
{
    match tr.translate_word(lowered) {
        Some(t) => {
            if dict.contains(t.as_str()) {
                Some(t)
            } else {
                None
            }
        },
        None => None,
    }
}

/// The synonym of `word`: its lower-case form translated, where that is a
/// known word and `word` has at least `min_len` bytes.
pub fn synonym_for(tr: &Translator, dict: &Dictionary, word: &str, min_len: usize) -> (r: Option<
    String,
>)
    requires
        dict.wf(),
    ensures
        match synonym_of(tr@, dict.word_set(), min_len as nat, word@) {
            Some(t) => r is Some && r->0@ == t,
            None => r is None,
        },
{
    if word.as_bytes().len() < min_len {
        return None;
    }
    let lowered = lowercase(word);
    synonym_of_lowered(tr, dict, lowered.as_str())
}

/// Every word of the dictionary, in order, paired with its synonym, where it
/// has one.
pub fn find_synonyms(tr: &Translator, dict: &Dictionary, min_len: usize) -> (r: Vec<
    (String, String),
>)
    requires
        dict.wf(),
    ensures
        pairs_view(r@) == synonym_pairs(tr@, dict.word_set(), min_len as nat, dict.words()),
{
    let ghost known = dict.word_set();
    let ghost ws = dict.words();
    let mut out: Vec<(String, String)> = Vec::new();
    let mut i: usize = 0;
    while i < dict.len()
        invariant
            i <= ws.len(),
            known == dict.word_set(),
            ws == dict.words(),
            dict.wf(),
            pairs_view(out@) == synonym_pairs(tr@, known, min_len as nat, ws.take(i as int)),
        decreases ws.len() - i,
    {
        let word = dict.word(i);
        assert(ws.take(i + 1).drop_last() =~= ws.take(i as int));
        assert(ws.take(i + 1).last() == ws[i as int]);
        match synonym_for(tr, dict, word.as_str(), min_len) {
            Some(t) => {
                let ghost before = out@;
                out.push((word.clone(), t));
                assert(pairs_view(out@) =~= pairs_view(before).push((ws[i as int], t@)));
            },
            None => {},
        }
        i = i + 1;
    }
    assert(ws.take(ws.len() as int) =~= ws);
    out
}

/// The output line of one pair: the word, a comma, and its synonym.
pub open spec fn pair_line(p: (Seq<char>, Seq<char>)) -> Seq<char> {
    p.0 + seq![','] + p.1
}

/// The output line `word,synonym` of a pair.
pub fn format_pair(word: &String, synonym: &String) -> (line: String)
    ensures
        line@ == pair_line((word@, synonym@)),
{
    let mut line = word.clone();
    proof {
        reveal_strlit(",");
    }
    line.append(",");
    line.append(synonym.as_str());
    line
}

/// The output of a scan from layout `from` to layout `to` over the lines of a
/// word list: one line `word,synonym` per distinct word that has a synonym at
/// least `min_len` bytes long, in the order in which the words first appear.
pub fn synonym_report(from: &KbdLayout, to: &KbdLayout, lines: Vec<String>, min_len: usize) -> (r:
    Vec<String>)
    ensures
        r@.map_values(|l: String| l@) == synonym_pairs(
            translation_map(from.keys@, to.keys@),
            distinct_in_order(lines@.map_values(|l: String| l@)).to_set(),
            min_len as nat,
            distinct_in_order(lines@.map_values(|l: String| l@)),
        ).map_values(|p: (Seq<char>, Seq<char>)| pair_line(p)),
{
    let tr = Translator::new(&from.keys, &to.keys);
    let dict = Dictionary::from_lines(lines);
    let pairs = find_synonyms(&tr, &dict, min_len);
    let ghost ps = pairs_view(pairs@);
    let mut out: Vec<String> = Vec::new();
    let mut i: usize = 0;
    while i < pairs.len()
        invariant
            i <= pairs@.len(),
            ps == pairs_view(pairs@),
            out@.map_values(|l: String| l@) == ps.take(i as int).map_values(
                |p: (Seq<char>, Seq<char>)| pair_line(p),
            ),
        decreases pairs@.len() - i,
    {
        let line = format_pair(&pairs[i].0, &pairs[i].1);
        assert(ps[i as int] == (pairs@[i as int].0@, pairs@[i as int].1@));
        let ghost before = out@;
        out.push(line);
        assert(out@.map_values(|l: String| l@) =~= before.map_values(|l: String| l@).push(
            pair_line(ps[i as int]),
        ));
        assert(out@.map_values(|l: String| l@) =~= ps.take(i + 1).map_values(
            |p: (Seq<char>, Seq<char>)| pair_line(p),
        ));
        i = i + 1;
    }
    assert(ps.take(pairs@.len() as int) =~= ps);
    out
}

/// Whatever the minimum length, no listed word is shorter than it, every
/// listed word is one of those scanned, and every synonym is a known word.
pub proof fn lemma_listed_pairs(m: Map<char, char>, known: Set<Seq<char>>, min_len: nat, ws: Seq<Seq<char>>)
    ensures
        forall|i: int|
            0 <= i < synonym_pairs(m, known, min_len, ws).len() ==> {
                let p = #[trigger] synonym_pairs(m, known, min_len, ws)[i];
                &&& byte_len(p.0) >= min_len
                &&& ws.contains(p.0)
                &&& known.contains(p.1)
            },
    decreases ws.len(),
{
    if ws.len() > 0 {
        let prev = synonym_pairs(m, known, min_len, ws.drop_last());
        lemma_listed_pairs(m, known, min_len, ws.drop_last());
        assert forall|i: int| 0 <= i < prev.len() implies ws.contains(#[trigger] prev[i].0) by {
            let j = choose|j: int| 0 <= j < ws.drop_last().len() && ws.drop_last()[j] == prev[i].0;
            assert(ws[j] == prev[i].0);
        }
        assert(ws[ws.len() - 1] == ws.last());
    }
}

/// Letter case does not matter: two words with the same lower-case form and
/// the same length in bytes have the same synonym.
pub proof fn lemma_case_folded(
    m: Map<char, char>,
    known: Set<Seq<char>>,
    min_len: nat,
    w1: Seq<char>,
    w2: Seq<char>,
)
    requires
        lower_of(w1) == lower_of(w2),
        byte_len(w1) == byte_len(w2),
    ensures
        synonym_of(m, known, min_len, w1) == synonym_of(m, known, min_len, w2),
{
}

} // verus!
