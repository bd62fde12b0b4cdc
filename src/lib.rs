//! Keyboard-layout synonyms: words that, typed on the keys of one layout
//! while the machine is set to another, come out as another known word.

use vstd::prelude::*;

mod dictionary;
mod layout;
mod synonyms;
mod text;
mod translator;

pub use dictionary::{distinct_in_order, string_views, Dictionary};
pub use layout::{
    builtin_layouts, colemak_keys, create_layouts, dvorak_keys, find_layout, layouts_view,
    lemma_builtin_layouts_uniform, qwerty_keys, workman_keys, KbdLayout, LAYOUT_KEY_COUNT,
};
pub use synonyms::{
    byte_len, find_synonyms, format_pair, lemma_case_folded, lemma_listed_pairs,
    lowered_synonym, pair_line, pairs_view, synonym_for, synonym_of, synonym_of_lowered,
    synonym_pairs, synonym_report,
};
pub use text::lower_of;
pub use translator::{
    lemma_round_trip, lemma_translation_positional, paired, shared_len,
    translate_seq, translation_map, Translator,
};

verus! {

} // verus!
