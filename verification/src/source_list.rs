//! Source-list tokens: ownership, curation metadata, ratings and sale
//! terms.
//!
//! Each token stands for one curated source list, whose encrypted data
//! lives off-platform behind a content identifier. The owner can update
//! the list, set a price, and sell the token; a sale pays a royalty
//! share to the original creator. Anyone can rate a list. Payment
//! transfers themselves happen outside; the purchase operation here
//! checks the terms, moves ownership, and says who is owed what.

use vstd::prelude::*;
use crate::feed::{dec_rep, dec_string, NFTContractMetadata, TokenId, TokenMetadata};

verus! {

/// Why a source-list operation was rejected.
#[derive(Clone, Copy, PartialEq, Eq, Structural, Debug)]
pub enum ListError {
    /// Royalty shares beyond 50% are refused at minting.
    RoyaltyTooHigh,
    /// No token with this identifier exists.
    TokenNotFound,
    /// Only the token owner may do this.
    NotTokenOwner,
    /// A rating must lie in 1..=5.
    InvalidRating,
    /// The token has no price set.
    NotForSale,
    /// The attached deposit does not cover the price.
    InsufficientDeposit,
    /// The owner cannot buy their own token.
    CannotBuyOwn,
}

/// Curation metadata of one source list.
#[derive(Debug)]
pub struct SourceListMetadata {
    /// Content identifier of the encrypted list data.
    pub cid: String,
    /// Number of sources in the list.
    pub source_count: u32,
    /// Domain or category of the list.
    pub domain: String,
    /// Creator of the list, paid the royalty share on every sale.
    pub creator: String,
    /// Whether the list is actively maintained.
    pub is_active: bool,
    /// Host time of the last update.
    pub updated_at: u64,
    /// Sale price; nothing means not for sale.
    pub price: Option<u128>,
    /// Royalty share of the creator, 0..=50 percent.
    pub royalty_percent: u8,
    /// Subscriptions and clones taken of this list.
    pub total_subscribers: u32,
    /// Average rating, 0..=500 standing for 0.0..=5.0 stars.
    pub avg_rating: u16,
    /// Number of ratings received.
    pub rating_count: u32,
}

/// Ownership record of one token.
pub struct Token {
    pub owner_id: String,
    pub next_approval_id: u64,
}

/// A token as handed to callers: identifier, owner and metadata.
pub struct JsonToken {
    pub token_id: TokenId,
    pub owner_id: String,
    pub metadata: TokenMetadata,
}

/// One minted source-list token with everything stored about it.
pub struct ListEntry {
    pub token_id: TokenId,
    pub token: Token,
    pub metadata: TokenMetadata,
    pub list: SourceListMetadata,
}

/// Who is owed what after a purchase.
#[derive(Debug)]
pub struct Payout {
    /// The seller, owed the price minus the royalty share.
    pub seller: String,
    /// The original creator, owed the royalty share.
    pub creator: String,
    pub seller_amount: u128,
    pub royalty_amount: u128,
}

/// The ledger state: all minted tokens, collection metadata, the next
/// counter value.
pub struct SourceListNFT {
    pub owner_id: String,
    pub entries: Vec<ListEntry>,
    pub metadata: NFTContractMetadata,
    pub next_token_id: u64,
}

impl Clone for SourceListMetadata {
    fn clone(&self) -> (res: Self)
        ensures
            res == *self,
    {
        let res = SourceListMetadata {
            cid: self.cid.clone(),
            source_count: self.source_count,
            domain: self.domain.clone(),
            creator: self.creator.clone(),
            is_active: self.is_active,
            updated_at: self.updated_at,
            price: self.price,
            royalty_percent: self.royalty_percent,
            total_subscribers: self.total_subscribers,
            avg_rating: self.avg_rating,
            rating_count: self.rating_count,
        };
        res
    }
}

/// Some entry in `s` carries the identifier `id`.
pub open spec fn has_list_token(s: Seq<ListEntry>, id: Seq<char>) -> bool {
    exists|i: int| 0 <= i < s.len() && (#[trigger] s[i].token_id@) == id
}

/// No two entries in `s` share an identifier.
pub open spec fn list_token_ids_unique(s: Seq<ListEntry>) -> bool {
    forall|i: int, j: int|
        0 <= i < j < s.len() ==> (#[trigger] s[i].token_id@) != (#[trigger] s[j].token_id@)
}

/// `id` was minted from a counter value below `bound`.
pub open spec fn list_id_minted(id: Seq<char>, bound: u64) -> bool {
    exists|k: int| 0 <= k < bound && id == "srclist-"@ + (#[trigger] dec_rep(k))
}

/// A stored list is well formed: royalty at most 50%, rating average at
/// most 5.0 stars.
pub open spec fn list_meta_valid(l: SourceListMetadata) -> bool {
    &&& l.royalty_percent <= 50
    &&& l.avg_rating <= 500
}

impl SourceListNFT {
    /// The ledger invariant.
    pub open spec fn wf(self) -> bool {
        &&& list_token_ids_unique(self.entries@)
        &&& forall|i: int|
            0 <= i < self.entries@.len() ==> list_id_minted(
                (#[trigger] self.entries@[i]).token_id@,
                self.next_token_id,
            )
        &&& forall|i: int|
            0 <= i < self.entries@.len() ==> list_meta_valid((#[trigger] self.entries@[i]).list)
    }

    /// The entry of token `id`; meaningful under `wf` and
    /// `has_list_token`.
    pub open spec fn spec_entry_of(self, id: Seq<char>) -> ListEntry {
        self.entries@[choose|i: int|
            0 <= i < self.entries@.len() && (#[trigger] self.entries@[i].token_id@) == id]
    }

    /// A fresh ledger owned by `owner_id`, with no tokens.
    pub fn new(owner_id: String) -> (r: SourceListNFT)
        ensures
            r.wf(),
            r.owner_id == owner_id,
            r.entries@.len() == 0,
            r.next_token_id == 1,
    {
        let metadata = NFTContractMetadata {
            spec_version: "nft-1.0.0".to_owned(),
            name: "Argus Source Lists".to_owned(),
            symbol: "ASRC".to_owned(),
            icon: Some("https://argus.vitalpoint.ai/icon.png".to_owned()),
            base_uri: Some("https://argus.vitalpoint.ai/api/nft".to_owned()),
            reference: None,
            reference_hash: None,
        };
        SourceListNFT { owner_id, entries: Vec::new(), metadata, next_token_id: 1 }
    }

    /// Index of the entry of token `id`, if any.
    fn find_entry(&self, id: &String) -> (r: Option<usize>)
        ensures
            match r {
                Some(j) => j < self.entries@.len() && self.entries@[j as int].token_id@ == id@
                    && has_list_token(self.entries@, id@),
                None => !has_list_token(self.entries@, id@),
            },
    {
        let n = self.entries.len();
        let mut i: usize = 0;
        while i < n
            invariant
                n == self.entries@.len(),
                0 <= i <= n,
                forall|k: int| 0 <= k < i ==> (#[trigger] self.entries@[k].token_id@) != id@,
            decreases n - i,
        {
            if self.entries[i].token_id == *id {
                return Some(i);
            }
            i += 1;
        }
        None
    }

    /// Mints a new source-list token for `caller` at host time `now`.
    /// The royalty share defaults to 10% and may not exceed 50%. The
    /// token identifier is `srclist-` followed by the running counter.
    pub fn mint(
        &mut self,
        caller: String,
        now: u64,
        name: String,
        description: String,
        cid: String,
        source_count: u32,
        domain: String,
        price: Option<u128>,
        royalty_percent: Option<u8>,
    ) -> (r: Result<TokenId, ListError>)
        requires
            old(self).wf(),
            // machine limit: the token counter has room
            old(self).next_token_id < u64::MAX,
        ensures
            final(self).wf(),
            r is Err ==> *final(self) == *old(self),
            r is Err <==> (royalty_percent matches Some(p) && p > 50),
            r is Err ==> r == Err::<TokenId, ListError>(ListError::RoyaltyTooHigh),
            r matches Ok(tid) ==> {
                &&& tid@ == "srclist-"@ + dec_rep(old(self).next_token_id as int)
                &&& final(self).next_token_id == old(self).next_token_id + 1
                &&& final(self).entries@.len() == old(self).entries@.len() + 1
                &&& (forall|i: int|
                    0 <= i < old(self).entries@.len() ==> (#[trigger] final(self).entries@[i])
                        == old(self).entries@[i])
                &&& final(self).entries@.last().token_id@ == tid@
                &&& final(self).entries@.last().token.owner_id == caller
                &&& final(self).entries@.last().token.next_approval_id == 0
                &&& final(self).entries@.last().list.cid == cid
                &&& final(self).entries@.last().list.source_count == source_count
                &&& final(self).entries@.last().list.domain == domain
                &&& final(self).entries@.last().list.creator == caller
                &&& final(self).entries@.last().list.is_active
                &&& final(self).entries@.last().list.updated_at == now
                &&& final(self).entries@.last().list.price == price
                &&& final(self).entries@.last().list.royalty_percent == (match royalty_percent {
                    Some(p) => p as int,
                    None => 10int,
                })
                &&& final(self).entries@.last().list.total_subscribers == 0
                &&& final(self).entries@.last().list.avg_rating == 0
                &&& final(self).entries@.last().list.rating_count == 0
                &&& final(self).entries@.last().metadata.title == Some(name)
                &&& final(self).entries@.last().metadata.description == Some(description)
                &&& final(self).entries@.last().metadata.extra matches Some(x) && x@
                    == "{\"domain\":\""@ + domain@ + "\",\"sources\":"@ + dec_rep(
                    source_count as int,
                ) + "}"@
                &&& final(self).entries@.last().metadata.reference matches Some(rf) && rf@
                    == "ipfs://"@ + cid@
            },
    {
        let royalty = match royalty_percent {
            Some(p) => p,
            None => 10,
        };
        if royalty > 50 {
            return Err(ListError::RoyaltyTooHigh);
        }
        let ghost pre = *self;
        let counter = self.next_token_id;
        let token_id: String = "srclist-".to_owned().concat(dec_string(counter).as_str());
        let ghost g_tid = token_id@;
        proof {
            assert(g_tid == "srclist-"@ + dec_rep(counter as int));
        }
        let result_id = token_id.clone();

        let extra = "{\"domain\":\"".to_owned().concat(domain.as_str()).concat(
            "\",\"sources\":",
        ).concat(dec_string(source_count as u64).as_str()).concat("}");
        let token_metadata = TokenMetadata {
            title: Some(name),
            description: Some(description),
            media: None,
            media_hash: None,
            copies: Some(1),
            issued_at: Some(dec_string(now)),
            expires_at: None,
            starts_at: None,
            updated_at: Some(dec_string(now)),
            extra: Some(extra),
            reference: Some("ipfs://".to_owned().concat(cid.as_str())),
            reference_hash: None,
        };
        let list = SourceListMetadata {
            cid,
            source_count,
            domain,
            creator: caller.clone(),
            is_active: true,
            updated_at: now,
            price,
            royalty_percent: royalty,
            total_subscribers: 0,
            avg_rating: 0,
            rating_count: 0,
        };
        self.entries.push(
            ListEntry {
                token_id,
                token: Token { owner_id: caller, next_approval_id: 0 },
                metadata: token_metadata,
                list,
            },
        );
        self.next_token_id = counter + 1;
        proof {
            let n = pre.entries@.len() as int;
            assert forall|i: int, k2: int| 0 <= i < k2 < self.entries@.len() implies (
            #[trigger] self.entries@[i].token_id@) != (#[trigger] self.entries@[k2].token_id@) by {
                if k2 < n {
                    assert(pre.entries@[i].token_id@ != pre.entries@[k2].token_id@);
                } else {
                    assert(list_id_minted(pre.entries@[i].token_id@, pre.next_token_id));
                    let kk = choose|kk: int|
                        0 <= kk < pre.next_token_id && pre.entries@[i].token_id@ == "srclist-"@ + (
                        #[trigger] dec_rep(kk));
                    crate::feed::lemma_minted_id_injective("srclist-"@, kk, counter as int);
                }
            }
            assert forall|i: int| 0 <= i < self.entries@.len() implies list_id_minted(
                (#[trigger] self.entries@[i]).token_id@,
                self.next_token_id,
            ) && list_meta_valid(self.entries@[i].list) by {
                if i < n {
                    assert(list_id_minted(pre.entries@[i].token_id@, pre.next_token_id));
                    let kk = choose|kk: int|
                        0 <= kk < pre.next_token_id && pre.entries@[i].token_id@ == "srclist-"@ + (
                        #[trigger] dec_rep(kk));
                    assert(self.entries@[i].token_id@ == "srclist-"@ + dec_rep(kk));
                    assert(list_meta_valid(pre.entries@[i].list));
                } else {
                    assert(self.entries@[i].token_id@ == "srclist-"@ + dec_rep(counter as int));
                }
            }
        }
        Ok(result_id)
    }

    /// Replaces the list data of `token_id`, owner of the token only.
    pub fn update_list(
        &mut self,
        caller: String,
        now: u64,
        token_id: TokenId,
        new_cid: String,
        new_source_count: u32,
    ) -> (r: Result<(), ListError>)
        requires
            old(self).wf(),
        ensures
            final(self).wf(),
            r is Err ==> *final(self) == *old(self),
            r == Err::<(), ListError>(ListError::TokenNotFound) <==> !has_list_token(
                old(self).entries@,
                token_id@,
            ),
            r == Err::<(), ListError>(ListError::NotTokenOwner) <==> (has_list_token(
                old(self).entries@,
                token_id@,
            ) && old(self).spec_entry_of(token_id@).token.owner_id@ != caller@),
            r is Ok <==> (has_list_token(old(self).entries@, token_id@) && old(self).spec_entry_of(
                token_id@,
            ).token.owner_id@ == caller@),
            r is Ok ==> {
                let e2 = final(self).spec_entry_of(token_id@);
                let e = old(self).spec_entry_of(token_id@);
                &&& e2.list.cid == new_cid
                &&& e2.list.source_count == new_source_count
                &&& e2.list.updated_at == now
                &&& e2.list.price == e.list.price
                &&& e2.list.creator == e.list.creator
                &&& e2.list.royalty_percent == e.list.royalty_percent
                &&& e2.token == e.token
                &&& (forall|i: int|
                    0 <= i < old(self).entries@.len() && old(self).entries@[i].token_id@
                        != token_id@ ==> (#[trigger] final(self).entries@[i]) == old(
                        self,
                    ).entries@[i])
            },
    {
        let j = match self.find_entry(&token_id) {
            Some(j) => j,
            None => {
                return Err(ListError::TokenNotFound);
            },
        };
        let ghost pre = *self;
        proof {
            let w = choose|i: int|
                0 <= i < pre.entries@.len() && (#[trigger] pre.entries@[i].token_id@) == token_id@;
            if w != j as int {
                assert(false);
            }
        }
        if !(self.entries[j].token.owner_id == caller) {
            return Err(ListError::NotTokenOwner);
        }
        self.entries[j].list.cid = new_cid;
        self.entries[j].list.source_count = new_source_count;
        self.entries[j].list.updated_at = now;
        proof {
            lemma_entry_update_keeps_wf(pre, *self, j as int);
            let w2 = choose|i: int|
                0 <= i < self.entries@.len() && (#[trigger] self.entries@[i].token_id@)
                    == token_id@;
            if w2 != j as int {
                assert(false);
            }
        }
        Ok(())
    }

    /// Sets (or clears) the sale price of `token_id`, owner of the
    /// token only.
    pub fn set_price(&mut self, caller: String, token_id: TokenId, price: Option<u128>) -> (r:
        Result<(), ListError>)
        requires
            old(self).wf(),
        ensures
            final(self).wf(),
            r is Err ==> *final(self) == *old(self),
            r == Err::<(), ListError>(ListError::TokenNotFound) <==> !has_list_token(
                old(self).entries@,
                token_id@,
            ),
            r == Err::<(), ListError>(ListError::NotTokenOwner) <==> (has_list_token(
                old(self).entries@,
                token_id@,
            ) && old(self).spec_entry_of(token_id@).token.owner_id@ != caller@),
            r is Ok <==> (has_list_token(old(self).entries@, token_id@) && old(self).spec_entry_of(
                token_id@,
            ).token.owner_id@ == caller@),
            r is Ok ==> {
                let e2 = final(self).spec_entry_of(token_id@);
                let e = old(self).spec_entry_of(token_id@);
                &&& e2.list.price == price
                &&& e2.list.cid == e.list.cid
                &&& e2.token == e.token
                &&& (forall|i: int|
                    0 <= i < old(self).entries@.len() && old(self).entries@[i].token_id@
                        != token_id@ ==> (#[trigger] final(self).entries@[i]) == old(
                        self,
                    ).entries@[i])
            },
    {
        let j = match self.find_entry(&token_id) {
            Some(j) => j,
            None => {
                return Err(ListError::TokenNotFound);
            },
        };
        let ghost pre = *self;
        proof {
            let w = choose|i: int|
                0 <= i < pre.entries@.len() && (#[trigger] pre.entries@[i].token_id@) == token_id@;
            if w != j as int {
                assert(false);
            }
        }
        if !(self.entries[j].token.owner_id == caller) {
            return Err(ListError::NotTokenOwner);
        }
        self.entries[j].list.price = price;
        proof {
            lemma_entry_update_keeps_wf(pre, *self, j as int);
            let w2 = choose|i: int|
                0 <= i < self.entries@.len() && (#[trigger] self.entries@[i].token_id@)
                    == token_id@;
            if w2 != j as int {
                assert(false);
            }
        }
        Ok(())
    }

    /// Rates a list with 1 to 5 stars; the running average is kept in
    /// hundredths of a star.
    pub fn rate_list(&mut self, token_id: TokenId, rating: u8) -> (r: Result<(), ListError>)
        requires
            old(self).wf(),
            // machine limit: the u32 rating arithmetic has room
            has_list_token(old(self).entries@, token_id@) ==> old(self).spec_entry_of(
                token_id@,
            ).list.rating_count < 0x7F_FFFF,
        ensures
            final(self).wf(),
            r is Err ==> *final(self) == *old(self),
            r == Err::<(), ListError>(ListError::InvalidRating) <==> !(1 <= rating <= 5),
            r == Err::<(), ListError>(ListError::TokenNotFound) <==> (1 <= rating <= 5
                && !has_list_token(old(self).entries@, token_id@)),
            r is Ok <==> (1 <= rating <= 5 && has_list_token(old(self).entries@, token_id@)),
            r is Ok ==> {
                let e2 = final(self).spec_entry_of(token_id@);
                let e = old(self).spec_entry_of(token_id@);
                &&& e2.list.rating_count == e.list.rating_count + 1
                &&& e2.list.avg_rating == ((e.list.avg_rating as int) * (e.list.rating_count as int)
                    + (rating as int) * 100) / (e.list.rating_count as int + 1)
                &&& e2.list.cid == e.list.cid
                &&& e2.token == e.token
                &&& (forall|i: int|
                    0 <= i < old(self).entries@.len() && old(self).entries@[i].token_id@
                        != token_id@ ==> (#[trigger] final(self).entries@[i]) == old(
                        self,
                    ).entries@[i])
            },
    {
        if rating < 1 || rating > 5 {
            return Err(ListError::InvalidRating);
        }
        let j = match self.find_entry(&token_id) {
            Some(j) => j,
            None => {
                return Err(ListError::TokenNotFound);
            },
        };
        let ghost pre = *self;
        proof {
            let w = choose|i: int|
                0 <= i < pre.entries@.len() && (#[trigger] pre.entries@[i].token_id@) == token_id@;
            if w != j as int {
                assert(false);
            }
            assert(list_meta_valid(pre.entries@[j as int].list));
        }
        let avg = self.entries[j].list.avg_rating;
        let count = self.entries[j].list.rating_count;
        let new_rating: u32 = rating as u32 * 100;
        proof {
            assert((avg as int) * (count as int) + 500 < 0x1_0000_0000int) by (nonlinear_arith)
                requires
                    avg <= 500,
                    count < 0x7F_FFFF,
            ;
        }
        let total: u32 = avg as u32 * count + new_rating;
        let new_count: u32 = count + 1;
        proof {
            assert(total <= 500 * (new_count as int)) by (nonlinear_arith)
                requires
                    avg <= 500,
                    new_rating <= 500,
                    total == avg as int * (count as int) + new_rating as int,
                    new_count == count as int + 1,
            ;
            assert(total as int / (new_count as int) <= 500) by (nonlinear_arith)
                requires
                    new_count >= 1,
                    total <= 500 * (new_count as int),
            ;
        }
        let new_avg: u16 = (total / new_count) as u16;
        self.entries[j].list.avg_rating = new_avg;
        self.entries[j].list.rating_count = new_count;
        proof {
            lemma_entry_update_keeps_wf(pre, *self, j as int);
            let w2 = choose|i: int|
                0 <= i < self.entries@.len() && (#[trigger] self.entries@[i].token_id@)
                    == token_id@;
            if w2 != j as int {
                assert(false);
            }
        }
        Ok(())
    }

    /// Buys `token_id` for `buyer` with `deposit` attached: checks the
    /// sale terms, moves ownership, and returns who is owed what. The
    /// royalty share of the price goes to the creator, the rest to the
    /// seller; paying them out happens outside.
    pub fn purchase(&mut self, buyer: String, deposit: u128, token_id: TokenId) -> (r: Result<
        Payout,
        ListError,
    >)
        requires
            old(self).wf(),
            // machine limit: the royalty product fits in a u128
            has_list_token(old(self).entries@, token_id@) ==> (old(self).spec_entry_of(
                token_id@,
            ).list.price matches Some(p) ==> p <= u128::MAX / 50),
        ensures
            final(self).wf(),
            r is Err ==> *final(self) == *old(self),
            r == Err::<Payout, ListError>(ListError::TokenNotFound) <==> !has_list_token(
                old(self).entries@,
                token_id@,
            ),
            r == Err::<Payout, ListError>(ListError::NotForSale) <==> (has_list_token(
                old(self).entries@,
                token_id@,
            ) && old(self).spec_entry_of(token_id@).list.price is None),
            r matches Ok(pay) ==> {
                let e = old(self).spec_entry_of(token_id@);
                let e2 = final(self).spec_entry_of(token_id@);
                let price = e.list.price->Some_0;
                &&& deposit >= price
                &&& e.token.owner_id@ != buyer@
                &&& pay.seller == e.token.owner_id
                &&& pay.creator == e.list.creator
                &&& pay.royalty_amount == (price as int) * (e.list.royalty_percent as int) / 100
                &&& pay.seller_amount == price - pay.royalty_amount
                &&& e2.token.owner_id == buyer
                &&& e2.list == e.list
                &&& (forall|i: int|
                    0 <= i < old(self).entries@.len() && old(self).entries@[i].token_id@
                        != token_id@ ==> (#[trigger] final(self).entries@[i]) == old(
                        self,
                    ).entries@[i])
            },
    {
        let j = match self.find_entry(&token_id) {
            Some(j) => j,
            None => {
                return Err(ListError::TokenNotFound);
            },
        };
        let ghost pre = *self;
        proof {
            let w = choose|i: int|
                0 <= i < pre.entries@.len() && (#[trigger] pre.entries@[i].token_id@) == token_id@;
            if w != j as int {
                assert(false);
            }
            assert(list_meta_valid(pre.entries@[j as int].list));
        }
        let price = match self.entries[j].list.price {
            Some(p) => p,
            None => {
                return Err(ListError::NotForSale);
            },
        };
        if deposit < price {
            return Err(ListError::InsufficientDeposit);
        }
        if self.entries[j].token.owner_id == buyer {
            return Err(ListError::CannotBuyOwn);
        }
        let seller = self.entries[j].token.owner_id.clone();
        let creator = self.entries[j].list.creator.clone();
        let pct = self.entries[j].list.royalty_percent;
        proof {
            assert((price as int) * (pct as int) <= u128::MAX as int) by (nonlinear_arith)
                requires
                    price as int <= u128::MAX as int / 50,
                    0 <= pct <= 50,
                    price >= 0,
            ;
            assert(0 <= (price as int) * (pct as int) / 100 <= price as int) by (nonlinear_arith)
                requires
                    0 <= pct <= 50,
                    price >= 0,
            ;
        }
        let royalty_amount = price * pct as u128 / 100;
        let seller_amount = price - royalty_amount;
        self.entries[j].token.owner_id = buyer;
        proof {
            lemma_entry_update_keeps_wf(pre, *self, j as int);
            let w2 = choose|i: int|
                0 <= i < self.entries@.len() && (#[trigger] self.entries@[i].token_id@)
                    == token_id@;
            if w2 != j as int {
                assert(false);
            }
        }
        Ok(Payout { seller, creator, seller_amount, royalty_amount })
    }
}

/// The `(identifier, list metadata)` pairs of `s`, in mint order.
pub open spec fn all_lists_of(s: Seq<ListEntry>) -> Seq<(TokenId, SourceListMetadata)>
    decreases s.len(),
{
    if s.len() == 0 {
        Seq::empty()
    } else {
        all_lists_of(s.drop_last()).push((s.last().token_id, s.last().list))
    }
}

/// The pairs of `s` that carry a price, in mint order.
pub open spec fn lists_for_sale_of(s: Seq<ListEntry>) -> Seq<(TokenId, SourceListMetadata)>
    decreases s.len(),
{
    if s.len() == 0 {
        Seq::empty()
    } else if s.last().list.price is Some {
        lists_for_sale_of(s.drop_last()).push((s.last().token_id, s.last().list))
    } else {
        lists_for_sale_of(s.drop_last())
    }
}

/// The tokens `who` owns, with metadata, in mint order.
pub open spec fn json_tokens_of(s: Seq<ListEntry>, who: Seq<char>) -> Seq<JsonToken>
    decreases s.len(),
{
    if s.len() == 0 {
        Seq::empty()
    } else if s.last().token.owner_id@ == who {
        json_tokens_of(s.drop_last(), who).push(
            (JsonToken {
                token_id: s.last().token_id,
                owner_id: s.last().token.owner_id,
                metadata: s.last().metadata,
            }),
        )
    } else {
        json_tokens_of(s.drop_last(), who)
    }
}

/// The identifiers of the tokens `who` owns, in mint order.
pub open spec fn tokens_of(s: Seq<ListEntry>, who: Seq<char>) -> Seq<TokenId>
    decreases s.len(),
{
    if s.len() == 0 {
        Seq::empty()
    } else if s.last().token.owner_id@ == who {
        tokens_of(s.drop_last(), who).push(s.last().token_id)
    } else {
        tokens_of(s.drop_last(), who)
    }
}

impl SourceListNFT {
    /// The list metadata of `token_id`, if any.
    pub fn get_list_metadata(&self, token_id: TokenId) -> (r: Option<SourceListMetadata>)
        requires
            self.wf(),
        ensures
            r is Some <==> has_list_token(self.entries@, token_id@),
            r matches Some(l) ==> l == self.spec_entry_of(token_id@).list,
    {
        match self.find_entry(&token_id) {
            Some(j) => {
                proof {
                    let w = choose|i: int|
                        0 <= i < self.entries@.len() && (#[trigger] self.entries@[i].token_id@)
                            == token_id@;
                    if w != j as int {
                        assert(false);
                    }
                }
                Some(self.entries[j].list.clone())
            },
            None => None,
        }
    }

    /// Whether `account_id` owns `token_id`.
    pub fn has_access(&self, account_id: String, token_id: TokenId) -> (r: bool)
        requires
            self.wf(),
        ensures
            r == (has_list_token(self.entries@, token_id@) && self.spec_entry_of(
                token_id@,
            ).token.owner_id@ == account_id@),
    {
        match self.find_entry(&token_id) {
            Some(j) => {
                proof {
                    let w = choose|i: int|
                        0 <= i < self.entries@.len() && (#[trigger] self.entries@[i].token_id@)
                            == token_id@;
                    if w != j as int {
                        assert(false);
                    }
                }
                self.entries[j].token.owner_id == account_id
            },
            None => false,
        }
    }

    /// All lists, paginated: `from_index` (default 0), at most `limit`
    /// (default 50, capped at 100).
    pub fn get_all_lists(&self, from_index: Option<u64>, limit: Option<u64>) -> (r: Vec<
        (TokenId, SourceListMetadata),
    >)
        ensures
            ({
                let all = all_lists_of(self.entries@);
                let from = (match from_index {
                    Some(f) => f as int,
                    None => 0,
                });
                let lim = (match limit {
                    Some(l) => if l <= 100 {
                        l as int
                    } else {
                        100int
                    },
                    None => 50int,
                });
                let lo = if from <= all.len() {
                    from
                } else {
                    all.len() as int
                };
                let hi = if lo + lim <= all.len() {
                    lo + lim
                } else {
                    all.len() as int
                };
                r@ == all.subrange(lo, hi)
            }),
    {
        let n = self.entries.len();
        let mut pairs: Vec<(TokenId, SourceListMetadata)> = Vec::new();
        let mut i: usize = 0;
        while i < n
            invariant
                n == self.entries@.len(),
                0 <= i <= n,
                pairs@ == all_lists_of(self.entries@.take(i as int)),
            decreases n - i,
        {
            proof {
                assert(self.entries@.take(i as int + 1).drop_last() =~= self.entries@.take(
                    i as int,
                ));
                assert(self.entries@.take(i as int + 1).last() == self.entries@[i as int]);
            }
            pairs.push((self.entries[i].token_id.clone(), self.entries[i].list.clone()));
            i += 1;
        }
        proof {
            assert(self.entries@.take(n as int) =~= self.entries@);
        }
        Self::window(pairs, from_index, limit, 50)
    }

    /// The lists with a price set, paginated as in `get_all_lists`.
    pub fn get_lists_for_sale(&self, from_index: Option<u64>, limit: Option<u64>) -> (r: Vec<
        (TokenId, SourceListMetadata),
    >)
        ensures
            ({
                let all = lists_for_sale_of(self.entries@);
                let from = (match from_index {
                    Some(f) => f as int,
                    None => 0,
                });
                let lim = (match limit {
                    Some(l) => if l <= 100 {
                        l as int
                    } else {
                        100int
                    },
                    None => 50int,
                });
                let lo = if from <= all.len() {
                    from
                } else {
                    all.len() as int
                };
                let hi = if lo + lim <= all.len() {
                    lo + lim
                } else {
                    all.len() as int
                };
                r@ == all.subrange(lo, hi)
            }),
    {
        let n = self.entries.len();
        let mut pairs: Vec<(TokenId, SourceListMetadata)> = Vec::new();
        let mut i: usize = 0;
        while i < n
            invariant
                n == self.entries@.len(),
                0 <= i <= n,
                pairs@ == lists_for_sale_of(self.entries@.take(i as int)),
            decreases n - i,
        {
            proof {
                assert(self.entries@.take(i as int + 1).drop_last() =~= self.entries@.take(
                    i as int,
                ));
                assert(self.entries@.take(i as int + 1).last() == self.entries@[i as int]);
            }
            if self.entries[i].list.price.is_some() {
                pairs.push((self.entries[i].token_id.clone(), self.entries[i].list.clone()));
            }
            i += 1;
        }
        proof {
            assert(self.entries@.take(n as int) =~= self.entries@);
        }
        Self::window(pairs, from_index, limit, 50)
    }

    /// The window of `pairs` that `from_index` and `limit` select, with
    /// `default_limit` when no limit is given.
    fn window(
        pairs: Vec<(TokenId, SourceListMetadata)>,
        from_index: Option<u64>,
        limit: Option<u64>,
        default_limit: u64,
    ) -> (r: Vec<(TokenId, SourceListMetadata)>)
        requires
            default_limit <= 100,
        ensures
            ({
                let from = (match from_index {
                    Some(f) => f as int,
                    None => 0,
                });
                let lim = (match limit {
                    Some(l) => if l <= 100 {
                        l as int
                    } else {
                        100int
                    },
                    None => default_limit as int,
                });
                let lo = if from <= pairs@.len() {
                    from
                } else {
                    pairs@.len() as int
                };
                let hi = if lo + lim <= pairs@.len() {
                    lo + lim
                } else {
                    pairs@.len() as int
                };
                r@ == pairs@.subrange(lo, hi)
            }),
    {
        let total = pairs.len();
        let from_v: usize = match from_index {
            Some(f) => {
                if f >= total as u64 {
                    total
                } else {
                    f as usize
                }
            },
            None => 0,
        };
        let lim_v: usize = match limit {
            Some(l) => {
                if l <= 100 {
                    l as usize
                } else {
                    100
                }
            },
            None => default_limit as usize,
        };
        let hi_v: usize = if total - from_v > lim_v {
            from_v + lim_v
        } else {
            total
        };
        let mut out: Vec<(TokenId, SourceListMetadata)> = Vec::new();
        let mut k: usize = from_v;
        while k < hi_v
            invariant
                from_v <= k <= hi_v <= total,
                total == pairs@.len(),
                out@.len() == k - from_v,
                forall|q: int| 0 <= q < out@.len() ==> (#[trigger] out@[q]) == pairs@[from_v + q],
            decreases hi_v - k,
        {
            let entry = (pairs[k].0.clone(), pairs[k].1.clone());
            out.push(entry);
            k += 1;
        }
        proof {
            assert(out@ =~= pairs@.subrange(from_v as int, hi_v as int));
        }
        out
    }

    /// The identifiers of all tokens `account_id` owns, in mint order.
    pub fn get_lists_for_owner(&self, account_id: String) -> (r: Vec<TokenId>)
        ensures
            r@ == tokens_of(self.entries@, account_id@),
    {
        let n = self.entries.len();
        let mut out: Vec<TokenId> = Vec::new();
        let mut i: usize = 0;
        while i < n
            invariant
                n == self.entries@.len(),
                0 <= i <= n,
                out@ == tokens_of(self.entries@.take(i as int), account_id@),
            decreases n - i,
        {
            proof {
                assert(self.entries@.take(i as int + 1).drop_last() =~= self.entries@.take(
                    i as int,
                ));
                assert(self.entries@.take(i as int + 1).last() == self.entries@[i as int]);
            }
            if self.entries[i].token.owner_id == account_id {
                out.push(self.entries[i].token_id.clone());
            }
            i += 1;
        }
        proof {
            assert(self.entries@.take(n as int) =~= self.entries@);
        }
        out
    }

    /// The token with its metadata, if any.
    pub fn nft_token(&self, token_id: TokenId) -> (r: Option<JsonToken>)
        requires
            self.wf(),
        ensures
            r is Some <==> has_list_token(self.entries@, token_id@),
            r matches Some(t) ==> t.token_id@ == token_id@ && t.owner_id == self.spec_entry_of(
                token_id@,
            ).token.owner_id && t.metadata == self.spec_entry_of(token_id@).metadata,
    {
        match self.find_entry(&token_id) {
            Some(j) => {
                proof {
                    let w = choose|i: int|
                        0 <= i < self.entries@.len() && (#[trigger] self.entries@[i].token_id@)
                            == token_id@;
                    if w != j as int {
                        assert(false);
                    }
                }
                Some(
                    JsonToken {
                        token_id,
                        owner_id: self.entries[j].token.owner_id.clone(),
                        metadata: self.entries[j].metadata.clone(),
                    },
                )
            },
            None => None,
        }
    }

    /// The collection metadata.
    pub fn nft_metadata(&self) -> (r: NFTContractMetadata)
        ensures
            r == self.metadata,
    {
        self.metadata.clone()
    }

    /// The number of minted tokens.
    pub fn nft_total_supply(&self) -> (r: u64)
        ensures
            r == self.entries@.len(),
    {
        self.entries.len() as u64
    }

    /// The number of tokens `account_id` owns.
    pub fn nft_supply_for_owner(&self, account_id: String) -> (r: u64)
        ensures
            r == tokens_of(self.entries@, account_id@).len(),
    {
        let ids = self.get_lists_for_owner(account_id);
        ids.len() as u64
    }

    /// The tokens `account_id` owns, with metadata, paginated:
    /// `from_index` (default 0), at most `limit` (default 50, capped
    /// at 100).
    pub fn nft_tokens_for_owner(
        &self,
        account_id: String,
        from_index: Option<u64>,
        limit: Option<u64>,
    ) -> (r: Vec<JsonToken>)
        ensures
            ({
                let owned = json_tokens_of(self.entries@, account_id@);
                let from = (match from_index {
                    Some(f) => f as int,
                    None => 0,
                });
                let lim = (match limit {
                    Some(l) => if l <= 100 {
                        l as int
                    } else {
                        100int
                    },
                    None => 50int,
                });
                let lo = if from <= owned.len() {
                    from
                } else {
                    owned.len() as int
                };
                let hi = if lo + lim <= owned.len() {
                    lo + lim
                } else {
                    owned.len() as int
                };
                r@ == owned.subrange(lo, hi)
            }),
    {
        let n = self.entries.len();
        let mut owned: Vec<JsonToken> = Vec::new();
        let mut i: usize = 0;
        while i < n
            invariant
                n == self.entries@.len(),
                0 <= i <= n,
                owned@ == json_tokens_of(self.entries@.take(i as int), account_id@),
            decreases n - i,
        {
            proof {
                assert(self.entries@.take(i as int + 1).drop_last() =~= self.entries@.take(
                    i as int,
                ));
                assert(self.entries@.take(i as int + 1).last() == self.entries@[i as int]);
            }
            if self.entries[i].token.owner_id == account_id {
                owned.push(
                    JsonToken {
                        token_id: self.entries[i].token_id.clone(),
                        owner_id: self.entries[i].token.owner_id.clone(),
                        metadata: self.entries[i].metadata.clone(),
                    },
                );
            }
            i += 1;
        }
        proof {
            assert(self.entries@.take(n as int) =~= self.entries@);
        }

        let total = owned.len();
        let from_v: usize = match from_index {
            Some(f) => {
                if f >= total as u64 {
                    total
                } else {
                    f as usize
                }
            },
            None => 0,
        };
        let lim_v: usize = match limit {
            Some(l) => {
                if l <= 100 {
                    l as usize
                } else {
                    100
                }
            },
            None => 50,
        };
        let hi_v: usize = if total - from_v > lim_v {
            from_v + lim_v
        } else {
            total
        };
        let mut out: Vec<JsonToken> = Vec::new();
        let mut k: usize = from_v;
        while k < hi_v
            invariant
                from_v <= k <= hi_v <= total,
                total == owned@.len(),
                out@.len() == k - from_v,
                forall|q: int| 0 <= q < out@.len() ==> (#[trigger] out@[q]) == owned@[from_v + q],
            decreases hi_v - k,
        {
            out.push(
                JsonToken {
                    token_id: owned[k].token_id.clone(),
                    owner_id: owned[k].owner_id.clone(),
                    metadata: owned[k].metadata.clone(),
                },
            );
            k += 1;
        }
        proof {
            assert(out@ =~= owned@.subrange(from_v as int, hi_v as int));
        }
        out
    }

    /// Transfers `token_id` to `receiver_id`. Fails `TokenNotFound` for
    /// an unknown token and `NotTokenOwner` when `caller` does not own
    /// it.
    pub fn nft_transfer(
        &mut self,
        caller: String,
        receiver_id: String,
        token_id: TokenId,
        _approval_id: Option<u64>,
        _memo: Option<String>,
    ) -> (r: Result<(), ListError>)
        requires
            old(self).wf(),
        ensures
            final(self).wf(),
            r is Err ==> *final(self) == *old(self),
            r == Err::<(), ListError>(ListError::TokenNotFound) <==> !has_list_token(
                old(self).entries@,
                token_id@,
            ),
            r == Err::<(), ListError>(ListError::NotTokenOwner) <==> (has_list_token(
                old(self).entries@,
                token_id@,
            ) && old(self).spec_entry_of(token_id@).token.owner_id@ != caller@),
            r is Ok <==> (has_list_token(old(self).entries@, token_id@) && old(self).spec_entry_of(
                token_id@,
            ).token.owner_id@ == caller@),
            r is Ok ==> {
                let e2 = final(self).spec_entry_of(token_id@);
                let e = old(self).spec_entry_of(token_id@);
                &&& e2.token.owner_id == receiver_id
                &&& e2.list == e.list
                &&& e2.metadata == e.metadata
                &&& (forall|i: int|
                    0 <= i < old(self).entries@.len() && old(self).entries@[i].token_id@
                        != token_id@ ==> (#[trigger] final(self).entries@[i]) == old(
                        self,
                    ).entries@[i])
            },
    {
        let j = match self.find_entry(&token_id) {
            Some(j) => j,
            None => {
                return Err(ListError::TokenNotFound);
            },
        };
        let ghost pre = *self;
        proof {
            let w = choose|i: int|
                0 <= i < pre.entries@.len() && (#[trigger] pre.entries@[i].token_id@) == token_id@;
            if w != j as int {
                assert(false);
            }
        }
        if !(self.entries[j].token.owner_id == caller) {
            return Err(ListError::NotTokenOwner);
        }
        self.entries[j].token.owner_id = receiver_id;
        proof {
            assert(list_meta_valid(pre.entries@[j as int].list));
            lemma_entry_update_keeps_wf(pre, *self, j as int);
            let w2 = choose|i: int|
                0 <= i < self.entries@.len() && (#[trigger] self.entries@[i].token_id@)
                    == token_id@;
            if w2 != j as int {
                assert(false);
            }
        }
        Ok(())
    }
}

/// An in-place entry update that keeps identifier and royalty/rating
/// validity keeps the ledger invariant.
proof fn lemma_entry_update_keeps_wf(pre: SourceListNFT, post: SourceListNFT, j: int)
    requires
        pre.wf(),
        0 <= j < pre.entries@.len(),
        post.entries@.len() == pre.entries@.len(),
        post.next_token_id == pre.next_token_id,
        forall|i: int|
            0 <= i < pre.entries@.len() && i != j ==> (#[trigger] post.entries@[i])
                == pre.entries@[i],
        post.entries@[j].token_id == pre.entries@[j].token_id,
        post.entries@[j].list.royalty_percent == pre.entries@[j].list.royalty_percent,
        post.entries@[j].list.avg_rating <= 500,
    ensures
        post.wf(),
{
    assert forall|i: int, k: int| 0 <= i < k < post.entries@.len() implies (
    #[trigger] post.entries@[i].token_id@) != (#[trigger] post.entries@[k].token_id@) by {
        assert(pre.entries@[i].token_id@ != pre.entries@[k].token_id@);
        if i != j {
            assert(post.entries@[i] == pre.entries@[i]);
        }
        if k != j {
            assert(post.entries@[k] == pre.entries@[k]);
        }
    }
    assert forall|i: int| 0 <= i < post.entries@.len() implies list_id_minted(
        (#[trigger] post.entries@[i]).token_id@,
        post.next_token_id,
    ) && list_meta_valid(post.entries@[i].list) by {
        assert(list_id_minted(pre.entries@[i].token_id@, pre.next_token_id));
        assert(list_meta_valid(pre.entries@[i].list));
        if i != j {
            assert(post.entries@[i] == pre.entries@[i]);
        }
    }
}

} // verus!
