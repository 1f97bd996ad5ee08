//! Token masks and the token trie, from the `toktrie` crate.
use toktrie::{SimpleVob, TokTrie};
use vstd::prelude::*;

verus! {

/// `toktrie::SimpleVob`, a bit vector over token ids. Nothing inside it is visible here.
#[verifier::external_type_specification]
#[verifier::external_body]
pub struct ExSimpleVob(SimpleVob);

/// `toktrie::TokTrie`, the prefix tree of a vocabulary. Nothing inside it is visible here.
#[verifier::external_type_specification]
#[verifier::external_body]
pub struct ExTokTrie(TokTrie);

/// The tokens that a mask allows: those for which `SimpleVob::is_allowed` answers `true`.
pub uninterp spec fn mask_tokens(mask: SimpleVob) -> Set<u32>;

/// How many tokens a mask ranges over: `SimpleVob::len`.
pub uninterp spec fn mask_len(mask: SimpleVob) -> nat;

/// The end-of-sequence tokens that a trie was made with: `TokTrie::eos_tokens`.
pub uninterp spec fn trie_eos_tokens(trie: TokTrie) -> Seq<u32>;

/// The size of the vocabulary that a trie was made with: `TokTrie::vocab_size`, which holds a
/// `u32`.
pub uninterp spec fn trie_vocab_size(trie: TokTrie) -> u32;

/// `TokTrie::eos_token_set`: a mask over the vocabulary of the trie that allows exactly those of
/// its end-of-sequence tokens that lie in the vocabulary. The id `0xffff_ffff`, which stands for
/// no token, lies in none.
pub assume_specification[ TokTrie::eos_token_set ](trie: &TokTrie) -> (mask: SimpleVob)
    ensures
        mask_tokens(mask) == trie_eos_tokens(*trie).to_set().filter(
            |token: u32| token < trie_vocab_size(*trie),
        ),
        mask_len(mask) == trie_vocab_size(*trie),
;

/// `mask` ranges over the vocabulary of `trie` and allows its end-of-sequence tokens and nothing
/// else.
pub open spec fn is_eos_mask(mask: SimpleVob, trie: TokTrie) -> bool {
    &&& mask_len(mask) == trie_vocab_size(trie)
    &&& forall|token: u32| #[trigger]
        mask_tokens(mask).contains(token) <==> trie_eos_tokens(trie).contains(token) && token
            < trie_vocab_size(trie)
}

} // verus!
