use std::collections::HashSet;
use vstd::prelude::*;

verus! {

/// The character sequences of a set of strings.
pub open spec fn string_views(s: Set<String>) -> Set<Seq<char>> {
    s.map(|w: String| w@)
}

/// The words of `ws` with repeats removed, each where it first occurs.
pub open spec fn distinct_in_order(ws: Seq<Seq<char>>) -> Seq<Seq<char>>
    decreases ws.len(),
{
    if ws.len() == 0 {
        Seq::empty()
    } else {
        let prev = distinct_in_order(ws.drop_last());
        if prev.contains(ws.last()) {
            prev
        } else {
            prev.push(ws.last())
        }
    }
}

/// Relies on `HashSet::insert`: `String`'s `Eq` and `Hash` go by the
/// characters, so the set gains the word unless an equal one is there, and
/// the result says whether none was.
#[verifier::external_body]
fn index_insert(set: &mut HashSet<String>, w: String) -> (fresh: bool)
    ensures
        string_views(final(set)@) == string_views(old(set)@).insert(w@),
        fresh == !string_views(old(set)@).contains(w@),
{
    set.insert(w)
}

/// Relies on `HashSet::contains`: it finds a stored word equal to `w`, that
/// is, with the same characters.
#[verifier::external_body]
fn index_contains(set: &HashSet<String>, w: &str) -> (r: bool)
    ensures
        r == string_views(set@).contains(w@),
{
    set.contains(w)
}

/// A set of known words that also remembers the order in which they first
/// came.
pub struct Dictionary {
    words: Vec<String>,
    index: HashSet<String>,
}

impl Dictionary {
    /// The distinct words, in order of first arrival.
    pub closed spec fn words(&self) -> Seq<Seq<char>> {
        self.words@.map_values(|w: String| w@)
    }

    /// The words as a set.
    pub open spec fn word_set(&self) -> Set<Seq<char>> {
        self.words().to_set()
    }

    /// Each word is listed once, and the index holds exactly the listed words.
    pub closed spec fn wf(&self) -> bool {
        &&& self.words().no_duplicates()
        &&& string_views(self.index@) == self.words().to_set()
    }

    /// An empty dictionary.
    pub fn new() -> (d: Dictionary)
        ensures
            d.wf(),
            d.words() == Seq::<Seq<char>>::empty(),
    {
        let d = Dictionary { words: Vec::new(), index: HashSet::new() };
        assert(d.words() =~= Seq::<Seq<char>>::empty());
        assert(string_views(d.index@) =~= d.words().to_set());
        d
    }

    /// Adds `word` unless it is already known; says whether it was new.
    pub fn insert(&mut self, word: String) -> (fresh: bool)
        requires
            old(self).wf(),
        ensures
            final(self).wf(),
            fresh == !old(self).words().contains(word@),
            final(self).words() == (if fresh {
                old(self).words().push(word@)
            } else {
                old(self).words()
            }),
    {
        let ghost w = word@;
        let kept = word.clone();
        let fresh = index_insert(&mut self.index, word);
        proof {
            assert(old(self).words().to_set().contains(w) == old(self).words().contains(w));
        }
        if fresh {
            self.words.push(kept);
            assert(self.words() =~= old(self).words().push(w));
            assert(string_views(self.index@) =~= self.words().to_set()) by {
                assert forall|x: Seq<char>|
                    #[trigger] self.words().contains(x) == (old(self).words().contains(x) || x
                        == w) by {
                    if x == w {
                        assert(self.words()[self.words().len() - 1] == w);
                    }
                    if old(self).words().contains(x) {
                        let j = choose|j: int|
                            0 <= j < old(self).words().len() && old(self).words()[j] == x;
                        assert(self.words()[j] == x);
                    }
                }
            }
        } else {
            assert(string_views(self.index@) =~= self.words().to_set());
        }
        fresh
    }

    /// Whether `word` is known.
    pub fn contains(&self, word: &str) -> (r: bool)
        requires
            self.wf(),
        ensures
            r == self.words().contains(word@),
    {
        index_contains(&self.index, word)
    }

    /// The number of distinct words.
    pub fn len(&self) -> (n: usize)
        ensures
            n == self.words().len(),
    {
        self.words.len()
    }

    /// The `i`-th distinct word.
    pub fn word(&self, i: usize) -> (w: &String)
        requires
            i < self.words().len(),
        ensures
            w@ == self.words()[i as int],
    {
        &self.words[i]
    }

    /// The dictionary of the given lines: each distinct line is a word.
    pub fn from_lines(lines: Vec<String>) -> (d: Dictionary)
        ensures
            d.wf(),
            d.words() == distinct_in_order(lines@.map_values(|l: String| l@)),
    {
        let ghost ls = lines@.map_values(|l: String| l@);
        let mut d = Dictionary::new();
        let mut i: usize = 0;
        while i < lines.len()
            invariant
                i <= lines@.len(),
                ls == lines@.map_values(|l: String| l@),
                d.wf(),
                d.words() == distinct_in_order(ls.take(i as int)),
            decreases lines@.len() - i,
        {
            let line = lines[i].clone();
            assert(ls.take(i + 1).drop_last() =~= ls.take(i as int));
            d.insert(line);
            i = i + 1;
        }
        assert(ls.take(lines@.len() as int) =~= ls);
        d
    }
}

} // verus!
