use crate::text::string_from_chars;
use std::collections::HashMap;
use vstd::prelude::*;

verus! {

broadcast use {
    vstd::std_specs::hash::group_hash_axioms,
    vstd::utf8::char_u32_cast,
    vstd::utf8::char_is_scalar,
};

/// The map made by pairing the first `n` keys of `from` with the keys at the
/// same positions of `to`; where a key of `from` repeats, its last position wins.
pub open spec fn paired(from: Seq<char>, to: Seq<char>, n: nat) -> Map<char, char>
    decreases n,
{
    if n == 0 {
        Map::empty()
    } else {
        paired(from, to, (n - 1) as nat).insert(from[n - 1], to[n - 1])
    }
}

/// The number of positions that two key sequences share.
pub open spec fn shared_len(from: Seq<char>, to: Seq<char>) -> nat {
    if from.len() <= to.len() {
        from.len()
    } else {
        to.len()
    }
}

/// The positional mapping from the keys of `from` to those of `to`, over
/// the positions that both sequences have.
pub open spec fn translation_map(from: Seq<char>, to: Seq<char>) -> Map<char, char> {
    paired(from, to, shared_len(from, to))
}

/// A word mapped character by character, or `None` where one of its
/// characters lies outside the mapping's domain.
pub open spec fn translate_seq(m: Map<char, char>, w: Seq<char>) -> Option<Seq<char>> {
    if forall|i: int| 0 <= i < w.len() ==> #[trigger] m.contains_key(w[i]) {
        Some(w.map_values(|c: char| m[c]))
    } else {
        None
    }
}

/// The character map seen through its keys' code points.
pub open spec fn by_code_point(m: Map<u32, char>) -> Map<char, char> {
    Map::new(|c: char| m.contains_key(c as u32), |c: char| m[c as u32])
}

/// A character-to-character mapping between two keyboard layouts.
pub struct Translator {
    map: HashMap<u32, char>,
}

impl View for Translator {
    type V = Map<char, char>;

    closed spec fn view(&self) -> Map<char, char> {
        by_code_point(self.map@)
    }
}

impl Translator {
    /// Pairs position `i` of `from` with position `i` of `to`, for every
    /// position that both have.
    pub fn new(from: &Vec<char>, to: &Vec<char>) -> (t: Translator)
        ensures
            t@ == translation_map(from@, to@),
    {
        let n: usize = if from.len() <= to.len() { from.len() } else { to.len() };
        let mut map: HashMap<u32, char> = HashMap::new();
        let mut i: usize = 0;
        while i < n
            invariant
                n <= from.len(),
                n <= to.len(),
                n == shared_len(from@, to@),
                i <= n,
                by_code_point(map@) == paired(from@, to@, i as nat),
            decreases n - i,
        {
            let k: char = from[i];
            let v: char = to[i];
            let ghost before = map@;
            map.insert(k as u32, v);
            assert forall|c: char|
                #[trigger] by_code_point(map@).contains_key(c) == by_code_point(before).insert(
                    k,
                    v,
                ).contains_key(c) && (by_code_point(map@).contains_key(c) ==> by_code_point(
                    map@,
                )[c] == by_code_point(before).insert(k, v)[c]) by {
                vstd::utf8::char_u32_cast(c, c as u32);
                vstd::utf8::char_u32_cast(k, k as u32);
            }
            assert(by_code_point(map@) =~= by_code_point(before).insert(k, v));
            i = i + 1;
        }
        Translator { map }
    }

    /// The character that `c` maps to, if `c` is in the domain.
    pub fn translate_char(&self, c: char) -> (r: Option<char>)
        ensures
            r == (if self@.contains_key(c) { Some(self@[c]) } else { None::<char> }),
    {
        match self.map.get(&(c as u32)) {
            Some(v) => Some(*v),
            None => None,
        }
    }

    /// Maps each character of `word` in turn; `None` as soon as one has no
    /// entry.
    pub fn translate_word(&self, word: &str) -> (r: Option<String>)
        ensures
            match translate_seq(self@, word@) {
                Some(t) => r is Some && r->0@ == t,
                None => r is None,
            },
    {
        let mut out: Vec<char> = Vec::new();
        for c in it: word.chars()
            invariant
                it.seq() == word@,
                out@ == word@.take(it.index() as int).map_values(|x: char| self@[x]),
                forall|j: int| 0 <= j < it.index() ==> #[trigger] self@.contains_key(word@[j]),
        {
            match self.translate_char(c) {
                Some(d) => {
                    out.push(d);
                    assert(out@ =~= word@.take(it.index() + 1).map_values(|x: char| self@[x]));
                },
                None => {
                    return None;
                },
            }
        }
        assert(word@.take(word@.len() as int) =~= word@);
        Some(string_from_chars(&out))
    }
}

proof fn lemma_paired_distinct(from: Seq<char>, to: Seq<char>, n: nat)
    requires
        n <= from.len(),
        n <= to.len(),
        from.no_duplicates(),
    ensures
        forall|c: char|
            #[trigger] paired(from, to, n).contains_key(c) <==> exists|i: int|
                0 <= i < n && from[i] == c,
        forall|i: int| 0 <= i < n ==> paired(from, to, n)[#[trigger] from[i]] == to[i],
    decreases n,
{
    if n > 0 {
        lemma_paired_distinct(from, to, (n - 1) as nat);
        assert forall|c: char|
            #[trigger] paired(from, to, n).contains_key(c) implies exists|i: int|
                0 <= i < n && from[i] == c by {
            if c != from[n - 1] {
                assert(paired(from, to, (n - 1) as nat).contains_key(c));
            }
        }
    }
}

/// Building a translator pairs keys by position: for source keys that are all
/// different, the key at position `i` maps to the target key at position `i`,
/// and the domain is exactly the source keys at the shared positions.
pub proof fn lemma_translation_positional(from: Seq<char>, to: Seq<char>)
    requires
        from.no_duplicates(),
    ensures
        forall|i: int|
            0 <= i < shared_len(from, to) ==> translation_map(from, to)[#[trigger] from[i]]
                == to[i],
        forall|c: char|
            #[trigger] translation_map(from, to).contains_key(c) <==> exists|i: int|
                0 <= i < shared_len(from, to) && from[i] == c,
{
    lemma_paired_distinct(from, to, shared_len(from, to));
}

/// Translating a word from layout `a` to layout `b` and back gives the word
/// again exactly when every character of the word is a key of `a` at a
/// position that `b` also has; each layout's keys are all different.
pub proof fn lemma_round_trip(a: Seq<char>, b: Seq<char>, w: Seq<char>)
    requires
        a.no_duplicates(),
        b.no_duplicates(),
    ensures
        (translate_seq(translation_map(a, b), w) is Some && translate_seq(
            translation_map(b, a),
            translate_seq(translation_map(a, b), w)->0,
        ) == Some(w)) <==> (forall|i: int|
            0 <= i < w.len() ==> #[trigger] translation_map(a, b).contains_key(w[i])),
{
    let ab = translation_map(a, b);
    let ba = translation_map(b, a);
    lemma_translation_positional(a, b);
    lemma_translation_positional(b, a);
    assert(shared_len(a, b) == shared_len(b, a));
    if forall|i: int| 0 <= i < w.len() ==> #[trigger] ab.contains_key(w[i]) {
        let t = w.map_values(|c: char| ab[c]);
        let back = t.map_values(|c: char| ba[c]);
        assert forall|i: int|
            #![trigger back[i]]
            #![trigger ba.contains_key(t[i])]
            0 <= i < w.len() implies ba.contains_key(t[i]) && back[i] == w[i] by {
            assert(ab.contains_key(w[i]));
            let j = choose|j: int| 0 <= j < shared_len(a, b) && a[j] == w[i];
            assert(t[i] == ab[a[j]]);
            assert(ab[a[j]] == b[j]);
            assert(0 <= j < shared_len(b, a) && b[j] == t[i]);
            assert(ba.contains_key(b[j]));
            assert(ba[b[j]] == a[j]);
        }
        assert(back =~= w);
    }
}

} // verus!
