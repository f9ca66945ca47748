use std::collections::HashMap;
use vstd::prelude::*;

verus! {

broadcast use vstd::std_specs::hash::group_hash_axioms;

/// A syllabus: the payload a syllabus token is minted over.
#[derive(Debug)]
pub struct Syllabus {
    pub syllabus_id: u64,
    pub name: String,
    pub description: String,
}

impl Clone for Syllabus {
    fn clone(&self) -> (r: Self)
        ensures
            r == *self,
    {
        Syllabus {
            syllabus_id: self.syllabus_id,
            name: self.name.clone(),
            description: self.description.clone(),
        }
    }
}

/// Bookkeeping shape of the syllabus token collection: per-user nonces,
/// the syllabuses by id, and the admin's name.
pub struct MedooSyllabusNFT {
    pub nonces: HashMap<String, u64>,
    pub syllabuses: HashMap<u64, Syllabus>,
    pub admin: String,
}

/// A minted syllabus token.
#[derive(Debug)]
pub struct NFT {
    pub token_id: u64,
    pub syllabus: Syllabus,
}

impl Clone for NFT {
    fn clone(&self) -> (r: Self)
        ensures
            r == *self,
    {
        NFT { token_id: self.token_id, syllabus: self.syllabus.clone() }
    }
}

/// The token a syllabus mints to, keyed by its own id.
pub open spec fn token_of(s: Syllabus) -> NFT {
    NFT { token_id: s.syllabus_id, syllabus: s }
}

/// The store after minting the given syllabuses in order, stopping at the
/// first whose id is already taken: the earlier mints stay.
pub open spec fn minted_map(m: Map<u64, NFT>, items: Seq<Syllabus>) -> Map<u64, NFT>
    decreases items.len(),
{
    if items.len() == 0 {
        m
    } else if m.contains_key(items[0].syllabus_id) {
        m
    } else {
        minted_map(m.insert(items[0].syllabus_id, token_of(items[0])), items.skip(1))
    }
}

/// Whether every syllabus in the batch lands on a fresh id, minting in
/// order (a repeated id within the batch also collides).
pub open spec fn mint_all_fresh(m: Map<u64, NFT>, items: Seq<Syllabus>) -> bool
    decreases items.len(),
{
    items.len() == 0 || (!m.contains_key(items[0].syllabus_id) && mint_all_fresh(
        m.insert(items[0].syllabus_id, token_of(items[0])),
        items.skip(1),
    ))
}

/// The syllabus token registry: a create-if-absent store keyed by the
/// syllabus id.
pub struct SyllabusRegistry {
    nfts: HashMap<u64, NFT>,
}

impl View for SyllabusRegistry {
    type V = Map<u64, NFT>;

    closed spec fn view(&self) -> Map<u64, NFT> {
        self.nfts@
    }
}

impl SyllabusRegistry {
    /// An empty registry.
    pub fn new() -> (r: SyllabusRegistry)
        ensures
            r@ == Map::<u64, NFT>::empty(),
    {
        SyllabusRegistry { nfts: HashMap::new() }
    }

    /// Mints one token per syllabus, in order, each under its syllabus's
    /// own id. The batch stops at the first id already taken: that mint
    /// and the rest are refused, but the mints before it stay. The caller
    /// hands one receiver per syllabus, neither empty nor more than a
    /// hundred at once.
    pub fn mint_new_tokens(&mut self, receivers: Vec<String>, syllabus_lists: Vec<Syllabus>) -> (r:
        Result<u64, String>)
        requires
            receivers@.len() == syllabus_lists@.len(),
            0 < receivers@.len() <= 100,
        ensures
            final(self)@ == minted_map(old(self)@, syllabus_lists@),
            r is Ok <==> mint_all_fresh(old(self)@, syllabus_lists@),
            r is Ok ==> r == Ok::<u64, String>(receivers@.len() as u64),
            r matches Err(e) ==> e@ == "NFT with this token ID already exists."@,
    {
        let ghost items = syllabus_lists@;
        let n = syllabus_lists.len();
        let mut i: usize = 0;
        proof {
            assert(items.skip(0) =~= items);
        }
        while i < n
            invariant
                n == items.len(),
                items == syllabus_lists@,
                i <= n,
                minted_map(old(self)@, items) == minted_map(self@, items.skip(i as int)),
                mint_all_fresh(old(self)@, items) == mint_all_fresh(self@, items.skip(i as int)),
            decreases n - i,
        {
            let ghost rest = items.skip(i as int);
            proof {
                assert(rest.len() > 0);
                assert(rest[0] == items[i as int]);
            }
            let syllabus = syllabus_lists[i].clone();
            let token_id = syllabus.syllabus_id;
            if self.nfts.contains_key(&token_id) {
                proof {
                    assert(minted_map(self@, rest) == self@);
                    assert(!mint_all_fresh(self@, rest));
                }
                return Err("NFT with this token ID already exists.".to_owned());
            }
            let nft = NFT { token_id, syllabus };
            let ghost pre = self@;
            self.nfts.insert(token_id, nft);
            proof {
                assert(rest.skip(1) =~= items.skip(i as int + 1));
                assert(self@ == pre.insert(rest[0].syllabus_id, token_of(rest[0])));
                assert(minted_map(pre, rest) == minted_map(self@, items.skip(i as int + 1)));
                assert(mint_all_fresh(pre, rest) == mint_all_fresh(
                    self@,
                    items.skip(i as int + 1),
                ));
            }
            i = i + 1;
        }
        proof {
            assert(items.skip(n as int) =~= Seq::<Syllabus>::empty());
            assert(minted_map(self@, items.skip(n as int)) == self@);
            assert(mint_all_fresh(self@, items.skip(n as int)));
        }
        Ok(receivers.len() as u64)
    }

    /// A copy of the minted token under `syllabus_id`, if any.
    pub fn get_syllabus_data_by_id(&self, syllabus_id: u64) -> (r: Option<NFT>)
        ensures
            match r {
                Some(nft) => self@.contains_key(syllabus_id) && nft == self@[syllabus_id],
                None => !self@.contains_key(syllabus_id),
            },
    {
        match self.nfts.get(&syllabus_id) {
            Some(nft) => Some(nft.clone()),
            None => None,
        }
    }
}

} // verus!
