//! The feed: sources, their subscription packages, anchored posts and
//! access-pass tokens.
//!
//! Sources register under a privacy-preserving codename hash and define
//! their own subscription packages. Posts are anchored by content hash;
//! the content itself stays off-platform. Access passes are tokens that
//! grant time-bounded access to one source's premium posts, with
//! per-post revocation. Caller identity and the host clock are passed
//! in explicitly.

use vstd::prelude::*;
use crate::hex::{is_hex_64, spec_is_hex_64};

verus! {

/// A token identifier.
pub type TokenId = String;

/// Why a feed operation was rejected.
#[derive(Clone, Copy, PartialEq, Eq, Structural, Debug)]
pub enum FeedError {
    /// Only the feed owner may do this.
    OnlyOwner,
    /// The platform fee may not exceed 10%.
    FeeTooHigh,
    /// A source with this codename hash is already registered.
    SourceExists,
    /// A codename or content hash is not exactly 64 hex characters.
    InvalidHash,
    /// A package needs a positive duration and a name of at most 50
    /// characters.
    InvalidPackage,
    /// No source with this codename hash exists.
    SourceNotFound,
    /// The source is not accepting new subscribers or posts.
    SourceInactive,
    /// A post with this identifier is already anchored.
    PostExists,
    /// No post with this identifier exists.
    PostNotFound,
    /// The source defines no package with this identifier.
    PackageNotFound,
    /// No token with this identifier exists.
    TokenNotFound,
    /// Only the token owner may transfer it.
    NotTokenOwner,
}

/// Contract-level token collection metadata.
pub struct NFTContractMetadata {
    pub spec_version: String,
    pub name: String,
    pub symbol: String,
    pub icon: Option<String>,
    pub base_uri: Option<String>,
    pub reference: Option<String>,
    pub reference_hash: Option<String>,
}

/// Per-token metadata.
pub struct TokenMetadata {
    pub title: Option<String>,
    pub description: Option<String>,
    pub media: Option<String>,
    pub media_hash: Option<String>,
    pub copies: Option<u64>,
    pub issued_at: Option<String>,
    pub expires_at: Option<String>,
    pub starts_at: Option<String>,
    pub updated_at: Option<String>,
    pub extra: Option<String>,
    pub reference: Option<String>,
    pub reference_hash: Option<String>,
}

/// A source-defined subscription package, priced in USDC cents.
pub struct Package {
    pub id: String,
    pub name: String,
    pub price_usdc_cents: u32,
    pub duration_days: u32,
    pub description: String,
}

/// A source's public profile.
pub struct Source {
    /// Hash of the codename; the codename itself is never stored.
    pub codename_hash: String,
    /// Public key for key derivation.
    pub public_key: String,
    /// The source's subscription packages.
    pub packages: Vec<Package>,
    /// Posts anchored by this source.
    pub post_count: u64,
    /// Access passes minted for this source.
    pub subscriber_count: u64,
    /// Host time of registration.
    pub created_at: u64,
    /// Whether the source accepts new posts and subscribers.
    pub is_active: bool,
}

/// An anchored post; the encrypted content lives off-platform.
pub struct PostAnchor {
    pub post_id: String,
    /// Hash of the plaintext content, for integrity verification.
    pub content_hash: String,
    /// Content identifier of the encrypted content.
    pub content_cid: String,
    /// Whether reading requires a subscription.
    pub is_premium: bool,
    /// Epoch label for key derivation.
    pub epoch: String,
    pub created_at: u64,
    /// Codename hash of the anchoring source.
    pub source_hash: String,
    /// Proof kinds attached to this post.
    pub zk_proofs: Vec<String>,
}

/// The subscription data carried by an access-pass token.
pub struct AccessPassData {
    /// Source this pass grants access to.
    pub source_hash: String,
    /// Package that was purchased.
    pub package_id: String,
    /// When the subscription started.
    pub started_at: u64,
    /// When it expires; 0 means lifetime access.
    pub expires_at: u64,
    /// Amount paid, in USDC cents.
    pub amount_paid_usdc_cents: u32,
}

/// One minted access-pass token.
pub struct TokenEntry {
    pub token_id: TokenId,
    pub owner_id: String,
    pub metadata: TokenMetadata,
    pub pass: AccessPassData,
}

/// The post identifiers an account is barred from.
pub struct ExclusionEntry {
    pub post_id: String,
    pub excluded: Vec<String>,
}

impl Clone for TokenMetadata {
    fn clone(&self) -> (res: Self)
        ensures
            res == *self,
    {
        let res = TokenMetadata {
            title: self.title.clone(),
            description: self.description.clone(),
            media: self.media.clone(),
            media_hash: self.media_hash.clone(),
            copies: self.copies,
            issued_at: self.issued_at.clone(),
            expires_at: self.expires_at.clone(),
            starts_at: self.starts_at.clone(),
            updated_at: self.updated_at.clone(),
            extra: self.extra.clone(),
            reference: self.reference.clone(),
            reference_hash: self.reference_hash.clone(),
        };
        proof {
            assert(res.title == self.title);
            assert(res.description == self.description);
            assert(res.media == self.media);
            assert(res.media_hash == self.media_hash);
            assert(res.issued_at == self.issued_at);
            assert(res.expires_at == self.expires_at);
            assert(res.starts_at == self.starts_at);
            assert(res.updated_at == self.updated_at);
            assert(res.extra == self.extra);
            assert(res.reference == self.reference);
            assert(res.reference_hash == self.reference_hash);
        }
        res
    }
}

impl Clone for Package {
    fn clone(&self) -> (res: Self)
        ensures
            res == *self,
    {
        Package {
            id: self.id.clone(),
            name: self.name.clone(),
            price_usdc_cents: self.price_usdc_cents,
            duration_days: self.duration_days,
            description: self.description.clone(),
        }
    }
}

impl Clone for Source {
    fn clone(&self) -> (res: Self)
        ensures
            res.codename_hash == self.codename_hash,
            res.public_key == self.public_key,
            res.packages@ == self.packages@,
            res.post_count == self.post_count,
            res.subscriber_count == self.subscriber_count,
            res.created_at == self.created_at,
            res.is_active == self.is_active,
    {
        let packages = self.packages.clone();
        proof {
            assert forall|i: int| 0 <= i < packages@.len() implies packages@[i]
                == self.packages@[i] by {
                assert(cloned::<Package>(self.packages@[i], packages@[i]));
            }
            assert(packages@ =~= self.packages@);
        }
        Source {
            codename_hash: self.codename_hash.clone(),
            public_key: self.public_key.clone(),
            packages,
            post_count: self.post_count,
            subscriber_count: self.subscriber_count,
            created_at: self.created_at,
            is_active: self.is_active,
        }
    }
}

impl Clone for PostAnchor {
    fn clone(&self) -> (res: Self)
        ensures
            res.post_id == self.post_id,
            res.content_hash == self.content_hash,
            res.content_cid == self.content_cid,
            res.is_premium == self.is_premium,
            res.epoch == self.epoch,
            res.created_at == self.created_at,
            res.source_hash == self.source_hash,
            res.zk_proofs@ == self.zk_proofs@,
    {
        let zk_proofs = self.zk_proofs.clone();
        proof {
            assert forall|i: int| 0 <= i < zk_proofs@.len() implies zk_proofs@[i]
                == self.zk_proofs@[i] by {
                assert(cloned::<String>(self.zk_proofs@[i], zk_proofs@[i]));
            }
            assert(zk_proofs@ =~= self.zk_proofs@);
        }
        PostAnchor {
            post_id: self.post_id.clone(),
            content_hash: self.content_hash.clone(),
            content_cid: self.content_cid.clone(),
            is_premium: self.is_premium,
            epoch: self.epoch.clone(),
            created_at: self.created_at,
            source_hash: self.source_hash.clone(),
            zk_proofs,
        }
    }
}

impl Clone for AccessPassData {
    fn clone(&self) -> (res: Self)
        ensures
            res == *self,
    {
        AccessPassData {
            source_hash: self.source_hash.clone(),
            package_id: self.package_id.clone(),
            started_at: self.started_at,
            expires_at: self.expires_at,
            amount_paid_usdc_cents: self.amount_paid_usdc_cents,
        }
    }
}

// ---------------------------------------------------------------------------
// Decimal rendering
// ---------------------------------------------------------------------------

/// The decimal digit character for a value below 10.
pub open spec fn digit_char(d: int) -> char {
    "0123456789"@[d]
}

/// The decimal representation of `n`, most significant digit first.
pub open spec fn dec_rep(n: int) -> Seq<char>
    decreases n,
{
    if n < 10 {
        seq![digit_char(n)]
    } else {
        dec_rep(n / 10).push(digit_char(n % 10))
    }
}

/// The digit characters of a digit sequence.
pub open spec fn digits_of(s: Seq<u64>) -> Seq<char> {
    s.map_values(|d: u64| digit_char(d as int))
}

/// The digit table is ASCII and ten characters long.
proof fn lemma_digit_table()
    ensures
        vstd::string::is_ascii("0123456789"),
        "0123456789"@.len() == 10,
{
    reveal_strlit("0123456789");
    assert(vstd::string::is_ascii("0123456789")) by {
        reveal_strlit("0123456789");
        assert forall|i: int| 0 <= i < "0123456789"@.len() implies ("0123456789"@[i] as nat) < 128 by {
            reveal_strlit("0123456789");
        }
    }
}

/// Renders `n` in decimal.
pub fn dec_string(n: u64) -> (r: String)
    ensures
        r@ == dec_rep(n as int),
{
    let digits = "0123456789";
    proof {
        lemma_digit_table();
    }
    let mut rev: Vec<u64> = Vec::new();
    let mut m: u64 = n;
    while m >= 10
        invariant
            dec_rep(n as int) == dec_rep(m as int) + digits_of(rev@.reverse()),
            forall|i: int| 0 <= i < rev@.len() ==> (#[trigger] rev@[i]) < 10,
        decreases m,
    {
        let ghost pre_rev = rev@;
        rev.push(m % 10);
        proof {
            assert(rev@.reverse() =~= seq![(m % 10) as u64] + pre_rev.reverse());
            assert(digits_of(rev@.reverse()) =~= seq![digit_char((m % 10) as int)] + digits_of(
                pre_rev.reverse(),
            ));
            assert(dec_rep(m as int) == dec_rep(m as int / 10).push(digit_char(m as int % 10)));
            assert(dec_rep(m as int / 10) + (seq![digit_char((m % 10) as int)] + digits_of(
                pre_rev.reverse(),
            )) =~= (dec_rep(m as int / 10).push(digit_char(m as int % 10))) + digits_of(
                pre_rev.reverse(),
            ));
        }
        m = m / 10;
    }
    proof {
        lemma_digit_table();
    }
    let mut out = digits.substring_ascii(m as usize, m as usize + 1).to_owned();
    proof {
        assert(out@ =~= seq![digit_char(m as int)]);
        assert(dec_rep(m as int) == seq![digit_char(m as int)]);
    }
    let total = rev.len();
    let mut k: usize = 0;
    while k < total
        invariant
            total == rev@.len(),
            0 <= k <= total,
            digits@ == "0123456789"@,
            forall|i: int| 0 <= i < rev@.len() ==> (#[trigger] rev@[i]) < 10,
            dec_rep(n as int) == dec_rep(m as int) + digits_of(rev@.reverse()),
            m < 10,
            out@ == dec_rep(m as int) + digits_of(rev@.reverse()).take(k as int),
        decreases total - k,
    {
        proof {
            lemma_digit_table();
        }
        let d = rev[total - 1 - k];
        out.append(digits.substring_ascii(d as usize, d as usize + 1));
        proof {
            let chars = digits_of(rev@.reverse());
            assert(rev@.reverse()[k as int] == rev@[total - 1 - k as int]);
            assert(chars[k as int] == digit_char(rev@[total - 1 - k as int] as int));
            assert(chars.take(k as int + 1) =~= chars.take(k as int).push(chars[k as int]));
            assert(out@ =~= dec_rep(m as int) + chars.take(k as int + 1));
        }
        k += 1;
    }
    proof {
        let chars = digits_of(rev@.reverse());
        assert(chars.take(total as int) =~= chars);
        assert(out@ == dec_rep(n as int));
    }
    out
}

// ---------------------------------------------------------------------------
// Feed state
// ---------------------------------------------------------------------------

/// The feed state: sources, anchored posts, per-post exclusions, minted
/// access passes, and the collection metadata.
pub struct HumintFeed {
    pub owner_id: String,
    /// Platform fee in basis points, at most 1000 (10%).
    pub platform_fee_bps: u16,
    pub sources: Vec<Source>,
    pub posts: Vec<PostAnchor>,
    pub post_exclusions: Vec<ExclusionEntry>,
    pub tokens: Vec<TokenEntry>,
    pub metadata: NFTContractMetadata,
    pub next_token_id: u64,
}

/// Some source in `s` is registered under `hash`.
pub open spec fn has_source(s: Seq<Source>, hash: Seq<char>) -> bool {
    exists|i: int| 0 <= i < s.len() && (#[trigger] s[i].codename_hash@) == hash
}

/// No two sources in `s` share a codename hash.
pub open spec fn source_hashes_unique(s: Seq<Source>) -> bool {
    forall|i: int, j: int|
        0 <= i < j < s.len() ==> (#[trigger] s[i].codename_hash@) != (
        #[trigger] s[j].codename_hash@)
}

/// Some post in `s` carries the identifier `id`.
pub open spec fn has_post(s: Seq<PostAnchor>, id: Seq<char>) -> bool {
    exists|i: int| 0 <= i < s.len() && (#[trigger] s[i].post_id@) == id
}

/// No two posts in `s` share an identifier.
pub open spec fn post_ids_unique(s: Seq<PostAnchor>) -> bool {
    forall|i: int, j: int|
        0 <= i < j < s.len() ==> (#[trigger] s[i].post_id@) != (#[trigger] s[j].post_id@)
}

/// Some exclusion entry in `s` is keyed by `id`.
pub open spec fn has_exclusion_entry(s: Seq<ExclusionEntry>, id: Seq<char>) -> bool {
    exists|i: int| 0 <= i < s.len() && (#[trigger] s[i].post_id@) == id
}

/// No two exclusion entries in `s` share a post identifier.
pub open spec fn exclusion_ids_unique(s: Seq<ExclusionEntry>) -> bool {
    forall|i: int, j: int|
        0 <= i < j < s.len() ==> (#[trigger] s[i].post_id@) != (#[trigger] s[j].post_id@)
}

/// Some token in `s` carries the identifier `id`.
pub open spec fn has_token(s: Seq<TokenEntry>, id: Seq<char>) -> bool {
    exists|i: int| 0 <= i < s.len() && (#[trigger] s[i].token_id@) == id
}

/// No two tokens in `s` share an identifier.
pub open spec fn token_ids_unique(s: Seq<TokenEntry>) -> bool {
    forall|i: int, j: int|
        0 <= i < j < s.len() ==> (#[trigger] s[i].token_id@) != (#[trigger] s[j].token_id@)
}

/// A stored package is valid: positive duration.
pub open spec fn packages_valid(s: Seq<Package>) -> bool {
    forall|i: int| 0 <= i < s.len() ==> (#[trigger] s[i].duration_days) >= 1
}

/// No two names in `s` read the same.
pub open spec fn names_unique(s: Seq<String>) -> bool {
    forall|i: int, j: int| 0 <= i < j < s.len() ==> (#[trigger] s[i]@) != (#[trigger] s[j]@)
}

/// Some name in `s` reads `who`.
pub open spec fn names_contain(s: Seq<String>, who: Seq<char>) -> bool {
    exists|i: int| 0 <= i < s.len() && (#[trigger] s[i]@) == who
}

/// `id` was minted from a counter value below `bound`.
pub open spec fn token_id_minted(id: Seq<char>, bound: u64) -> bool {
    exists|k: int| 0 <= k < bound && id == "ap-"@ + (#[trigger] dec_rep(k))
}

/// A pass of `account` for `source` is live at `now`: lifetime access
/// (expiry 0) or not yet expired.
pub open spec fn pass_grants(t: TokenEntry, account: Seq<char>, source: Seq<char>, now: u64) -> bool {
    &&& t.owner_id@ == account
    &&& t.pass.source_hash@ == source
    &&& (t.pass.expires_at == 0 || t.pass.expires_at >= now)
}

impl HumintFeed {
    /// The feed invariant: unique keys everywhere, a bounded fee, valid
    /// stored packages, and every token identifier minted from a
    /// counter value below the next one.
    pub open spec fn wf(self) -> bool {
        &&& source_hashes_unique(self.sources@)
        &&& post_ids_unique(self.posts@)
        &&& exclusion_ids_unique(self.post_exclusions@)
        &&& forall|i: int|
            0 <= i < self.post_exclusions@.len() ==> names_unique(
                (#[trigger] self.post_exclusions@[i]).excluded@,
            )
        &&& token_ids_unique(self.tokens@)
        &&& self.platform_fee_bps <= 1000
        &&& forall|i: int|
            0 <= i < self.sources@.len() ==> packages_valid(#[trigger] self.sources@[i].packages@)
        &&& forall|i: int|
            0 <= i < self.sources@.len() ==> spec_is_hex_64(
                (#[trigger] self.sources@[i]).codename_hash@,
            )
        &&& forall|i: int|
            0 <= i < self.tokens@.len() ==> token_id_minted(
                (#[trigger] self.tokens@[i]).token_id@,
                self.next_token_id,
            )
    }

    /// The source registered under `hash`; meaningful under `wf` and
    /// `has_source`.
    pub open spec fn spec_source_of(self, hash: Seq<char>) -> Source {
        self.sources@[choose|i: int|
            0 <= i < self.sources@.len() && (#[trigger] self.sources@[i].codename_hash@) == hash]
    }

    /// The post anchored under `id`; meaningful under `wf` and
    /// `has_post`.
    pub open spec fn spec_post_of(self, id: Seq<char>) -> PostAnchor {
        self.posts@[choose|i: int|
            0 <= i < self.posts@.len() && (#[trigger] self.posts@[i].post_id@) == id]
    }

    /// The token minted under `id`; meaningful under `wf` and
    /// `has_token`.
    pub open spec fn spec_token_of(self, id: Seq<char>) -> TokenEntry {
        self.tokens@[choose|i: int|
            0 <= i < self.tokens@.len() && (#[trigger] self.tokens@[i].token_id@) == id]
    }

    /// Whether `account` is barred from post `id`.
    pub open spec fn spec_is_excluded(self, id: Seq<char>, account: Seq<char>) -> bool {
        exists|i: int|
            0 <= i < self.post_exclusions@.len() && (#[trigger] self.post_exclusions@[i].post_id@)
                == id && names_contain(self.post_exclusions@[i].excluded@, account)
    }

    /// Whether `account` holds a live pass for `source` at `now`.
    pub open spec fn spec_has_access(self, account: Seq<char>, source: Seq<char>, now: u64) -> bool {
        exists|i: int| 0 <= i < self.tokens@.len() && pass_grants(#[trigger] self.tokens@[i], account, source, now)
    }

    /// A fresh feed owned by `owner_id`. Fails `FeeTooHigh` for a fee
    /// over 10%.
    pub fn new(owner_id: String, platform_fee_bps: u16) -> (r: Result<HumintFeed, FeedError>)
        ensures
            r is Ok <==> platform_fee_bps <= 1000,
            r is Err ==> r == Err::<HumintFeed, FeedError>(FeedError::FeeTooHigh),
            r matches Ok(f) ==> {
                &&& f.wf()
                &&& f.owner_id == owner_id
                &&& f.platform_fee_bps == platform_fee_bps
                &&& f.sources@.len() == 0
                &&& f.posts@.len() == 0
                &&& f.post_exclusions@.len() == 0
                &&& f.tokens@.len() == 0
                &&& f.next_token_id == 1
            },
    {
        if platform_fee_bps > 1000 {
            return Err(FeedError::FeeTooHigh);
        }
        let metadata = NFTContractMetadata {
            spec_version: "nft-1.0.0".to_owned(),
            name: "Argus HUMINT Access Pass".to_owned(),
            symbol: "HUMINT".to_owned(),
            icon: Some("https://argus.vitalpoint.ai/humint-icon.png".to_owned()),
            base_uri: Some("https://argus.vitalpoint.ai/api/humint/nft".to_owned()),
            reference: None,
            reference_hash: None,
        };
        Ok(
            HumintFeed {
                owner_id,
                platform_fee_bps,
                sources: Vec::new(),
                posts: Vec::new(),
                post_exclusions: Vec::new(),
                tokens: Vec::new(),
                metadata,
                next_token_id: 1,
            },
        )
    }

    /// Index of the source registered under `hash`, if any.
    fn find_source(&self, hash: &String) -> (r: Option<usize>)
        ensures
            match r {
                Some(j) => j < self.sources@.len() && self.sources@[j as int].codename_hash@
                    == hash@ && has_source(self.sources@, hash@),
                None => !has_source(self.sources@, hash@),
            },
    {
        let n = self.sources.len();
        let mut i: usize = 0;
        while i < n
            invariant
                n == self.sources@.len(),
                0 <= i <= n,
                forall|k: int| 0 <= k < i ==> (#[trigger] self.sources@[k].codename_hash@) != hash@,
            decreases n - i,
        {
            if self.sources[i].codename_hash == *hash {
                return Some(i);
            }
            i += 1;
        }
        None
    }

    /// Index of the post anchored under `id`, if any.
    fn find_post(&self, id: &String) -> (r: Option<usize>)
        ensures
            match r {
                Some(j) => j < self.posts@.len() && self.posts@[j as int].post_id@ == id@
                    && has_post(self.posts@, id@),
                None => !has_post(self.posts@, id@),
            },
    {
        let n = self.posts.len();
        let mut i: usize = 0;
        while i < n
            invariant
                n == self.posts@.len(),
                0 <= i <= n,
                forall|k: int| 0 <= k < i ==> (#[trigger] self.posts@[k].post_id@) != id@,
            decreases n - i,
        {
            if self.posts[i].post_id == *id {
                return Some(i);
            }
            i += 1;
        }
        None
    }

    /// Index of the token minted under `id`, if any.
    fn find_token(&self, id: &String) -> (r: Option<usize>)
        ensures
            match r {
                Some(j) => j < self.tokens@.len() && self.tokens@[j as int].token_id@ == id@
                    && has_token(self.tokens@, id@),
                None => !has_token(self.tokens@, id@),
            },
    {
        let n = self.tokens.len();
        let mut i: usize = 0;
        while i < n
            invariant
                n == self.tokens@.len(),
                0 <= i <= n,
                forall|k: int| 0 <= k < i ==> (#[trigger] self.tokens@[k].token_id@) != id@,
            decreases n - i,
        {
            if self.tokens[i].token_id == *id {
                return Some(i);
            }
            i += 1;
        }
        None
    }

    /// Index of the exclusion entry keyed by `id`, if any.
    fn find_exclusion(&self, id: &String) -> (r: Option<usize>)
        ensures
            match r {
                Some(j) => j < self.post_exclusions@.len() && self.post_exclusions@[
                    j as int
                ].post_id@ == id@ && has_exclusion_entry(self.post_exclusions@, id@),
                None => !has_exclusion_entry(self.post_exclusions@, id@),
            },
    {
        let n = self.post_exclusions.len();
        let mut i: usize = 0;
        while i < n
            invariant
                n == self.post_exclusions@.len(),
                0 <= i <= n,
                forall|k: int| 0 <= k < i ==> (#[trigger] self.post_exclusions@[k].post_id@) != id@,
            decreases n - i,
        {
            if self.post_exclusions[i].post_id == *id {
                return Some(i);
            }
            i += 1;
        }
        None
    }

    /// Validates a package list: positive durations and names of at
    /// most 50 characters.
    fn packages_ok(packages: &Vec<Package>, check_names: bool) -> (r: bool)
        ensures
            r == (packages_valid(packages@) && (check_names ==> forall|i: int|
                0 <= i < packages@.len() ==> (#[trigger] packages@[i].name@).len() <= 50)),
    {
        let n = packages.len();
        let mut i: usize = 0;
        while i < n
            invariant
                n == packages@.len(),
                0 <= i <= n,
                forall|k: int| 0 <= k < i ==> (#[trigger] packages@[k].duration_days) >= 1,
                check_names ==> forall|k: int|
                    0 <= k < i ==> (#[trigger] packages@[k].name@).len() <= 50,
            decreases n - i,
        {
            if packages[i].duration_days == 0 {
                return false;
            }
            if check_names && packages[i].name.as_str().unicode_len() > 50 {
                return false;
            }
            i += 1;
        }
        true
    }

    /// Registers a source under `codename_hash` at host time `now`.
    /// Fails `SourceExists` for a hash already registered,
    /// `InvalidHash` for one that is not 64 hex characters, and
    /// `InvalidPackage` for a package without positive duration or with
    /// a name over 50 characters.
    pub fn register_source(
        &mut self,
        now: u64,
        codename_hash: String,
        public_key: String,
        packages: Vec<Package>,
    ) -> (r: Result<(), FeedError>)
        requires
            old(self).wf(),
        ensures
            final(self).wf(),
            r is Err ==> *final(self) == *old(self),
            r == Err::<(), FeedError>(FeedError::SourceExists) <==> has_source(
                old(self).sources@,
                codename_hash@,
            ),
            r == Err::<(), FeedError>(FeedError::InvalidHash) <==> (!has_source(
                old(self).sources@,
                codename_hash@,
            ) && !spec_is_hex_64(codename_hash@)),
            r is Ok <==> (!has_source(old(self).sources@, codename_hash@) && spec_is_hex_64(
                codename_hash@,
            ) && packages_valid(packages@) && (forall|i: int|
                0 <= i < packages@.len() ==> (#[trigger] packages@[i].name@).len() <= 50)),
            r is Ok ==> {
                &&& final(self).sources@.len() == old(self).sources@.len() + 1
                &&& (forall|i: int|
                    0 <= i < old(self).sources@.len() ==> (#[trigger] final(self).sources@[i])
                        == old(self).sources@[i])
                &&& final(self).sources@.last().codename_hash == codename_hash
                &&& final(self).sources@.last().public_key == public_key
                &&& final(self).sources@.last().packages@ == packages@
                &&& final(self).sources@.last().post_count == 0
                &&& final(self).sources@.last().subscriber_count == 0
                &&& final(self).sources@.last().created_at == now
                &&& final(self).sources@.last().is_active
                &&& final(self).posts == old(self).posts
                &&& final(self).tokens == old(self).tokens
                &&& final(self).post_exclusions == old(self).post_exclusions
                &&& final(self).next_token_id == old(self).next_token_id
                &&& final(self).owner_id == old(self).owner_id
                &&& final(self).platform_fee_bps == old(self).platform_fee_bps
            },
    {
        if self.find_source(&codename_hash).is_some() {
            return Err(FeedError::SourceExists);
        }
        if !is_hex_64(codename_hash.as_str()) {
            return Err(FeedError::InvalidHash);
        }
        if !Self::packages_ok(&packages, true) {
            return Err(FeedError::InvalidPackage);
        }
        let ghost pre = *self;
        let ghost g_hash = codename_hash@;
        self.sources.push(
            Source {
                codename_hash,
                public_key,
                packages,
                post_count: 0,
                subscriber_count: 0,
                created_at: now,
                is_active: true,
            },
        );
        proof {
            let n = pre.sources@.len() as int;
            assert forall|i: int, j: int| 0 <= i < j < self.sources@.len() implies (
            #[trigger] self.sources@[i].codename_hash@) != (
            #[trigger] self.sources@[j].codename_hash@) by {
                if j < n {
                    assert(pre.sources@[i].codename_hash@ != pre.sources@[j].codename_hash@);
                } else {
                    if self.sources@[i].codename_hash@ == g_hash {
                        assert(has_source(pre.sources@, g_hash));
                    }
                }
            }
            assert forall|i: int| 0 <= i < self.sources@.len() implies packages_valid(
                #[trigger] self.sources@[i].packages@,
            ) && spec_is_hex_64(self.sources@[i].codename_hash@) by {
                if i < n {
                    assert(self.sources@[i] == pre.sources@[i]);
                    assert(packages_valid(pre.sources@[i].packages@));
                    assert(spec_is_hex_64(pre.sources@[i].codename_hash@));
                }
            }
        }
        Ok(())
    }

    /// Replaces the packages of the source under `codename_hash`.
    /// Fails `SourceNotFound` for an unknown source and
    /// `InvalidPackage` for a package without positive duration.
    pub fn update_packages(&mut self, codename_hash: String, packages: Vec<Package>) -> (r: Result<
        (),
        FeedError,
    >)
        requires
            old(self).wf(),
        ensures
            final(self).wf(),
            r is Err ==> *final(self) == *old(self),
            r == Err::<(), FeedError>(FeedError::SourceNotFound) <==> !has_source(
                old(self).sources@,
                codename_hash@,
            ),
            r is Ok <==> (has_source(old(self).sources@, codename_hash@) && packages_valid(
                packages@,
            )),
            r is Ok ==> {
                &&& final(self).sources@.len() == old(self).sources@.len()
                &&& (forall|i: int|
                    0 <= i < old(self).sources@.len() && old(self).sources@[i].codename_hash@
                        != codename_hash@ ==> (#[trigger] final(self).sources@[i]) == old(
                        self,
                    ).sources@[i])
                &&& final(self).spec_source_of(codename_hash@).packages@ == packages@
                &&& final(self).spec_source_of(codename_hash@).codename_hash@ == codename_hash@
                &&& final(self).spec_source_of(codename_hash@).post_count == old(
                    self,
                ).spec_source_of(codename_hash@).post_count
                &&& final(self).posts == old(self).posts
                &&& final(self).tokens == old(self).tokens
            },
    {
        let j = match self.find_source(&codename_hash) {
            Some(j) => j,
            None => {
                return Err(FeedError::SourceNotFound);
            },
        };
        if !Self::packages_ok(&packages, false) {
            return Err(FeedError::InvalidPackage);
        }
        let ghost pre = *self;
        proof {
            let w = choose|i: int|
                0 <= i < pre.sources@.len() && (#[trigger] pre.sources@[i].codename_hash@)
                    == codename_hash@;
            if w != j as int {
                assert(false);
            }
        }
        self.sources[j].packages = packages;
        proof {
            assert forall|i: int| 0 <= i < self.sources@.len() implies (
            #[trigger] self.sources@[i].codename_hash@) == pre.sources@[i].codename_hash@ by {
                if i != j as int {
                    assert(self.sources@[i] == pre.sources@[i]);
                }
            }
            assert forall|i: int| 0 <= i < self.sources@.len() implies packages_valid(
                #[trigger] self.sources@[i].packages@,
            ) && spec_is_hex_64(self.sources@[i].codename_hash@) by {
                if i != j as int {
                    assert(self.sources@[i] == pre.sources@[i]);
                    assert(packages_valid(pre.sources@[i].packages@));
                }
                assert(spec_is_hex_64(pre.sources@[i].codename_hash@));
            }
            let w2 = choose|i: int|
                0 <= i < self.sources@.len() && (#[trigger] self.sources@[i].codename_hash@)
                    == codename_hash@;
            assert(self.sources@[j as int].codename_hash@ == codename_hash@);
            if w2 != j as int {
                assert(false);
            }
        }
        Ok(())
    }

    /// The source registered under `codename_hash`, if any.
    pub fn get_source(&self, codename_hash: String) -> (r: Option<Source>)
        requires
            self.wf(),
        ensures
            r is Some <==> has_source(self.sources@, codename_hash@),
            r matches Some(s) ==> {
                let stored = self.spec_source_of(codename_hash@);
                &&& s.codename_hash == stored.codename_hash
                &&& s.public_key == stored.public_key
                &&& s.packages@ == stored.packages@
                &&& s.post_count == stored.post_count
                &&& s.subscriber_count == stored.subscriber_count
                &&& s.created_at == stored.created_at
                &&& s.is_active == stored.is_active
            },
    {
        match self.find_source(&codename_hash) {
            Some(j) => {
                proof {
                    let w = choose|i: int|
                        0 <= i < self.sources@.len() && (#[trigger] self.sources@[i].codename_hash@)
                            == codename_hash@;
                    if w != j as int {
                        assert(false);
                    }
                }
                Some(self.sources[j].clone())
            },
            None => None,
        }
    }

    /// Whether `account_id` holds a live access pass for `source_hash`
    /// at host time `now`.
    pub fn has_access(&self, account_id: String, source_hash: String, now: u64) -> (r: bool)
        ensures
            r == self.spec_has_access(account_id@, source_hash@, now),
    {
        let n = self.tokens.len();
        let mut i: usize = 0;
        while i < n
            invariant
                n == self.tokens@.len(),
                0 <= i <= n,
                forall|k: int|
                    0 <= k < i ==> !pass_grants(
                        #[trigger] self.tokens@[k],
                        account_id@,
                        source_hash@,
                        now,
                    ),
            decreases n - i,
        {
            if self.tokens[i].owner_id == account_id && self.tokens[i].pass.source_hash
                == source_hash {
                let exp = self.tokens[i].pass.expires_at;
                if exp == 0 || exp >= now {
                    return true;
                }
            }
            i += 1;
        }
        false
    }

    /// Whether `account_id` is barred from post `post_id`.
    pub fn is_excluded(&self, post_id: String, account_id: String) -> (r: bool)
        requires
            self.wf(),
        ensures
            r == self.spec_is_excluded(post_id@, account_id@),
    {
        let j = match self.find_exclusion(&post_id) {
            Some(j) => j,
            None => {
                return false;
            },
        };
        let n = self.post_exclusions[j].excluded.len();
        let mut i: usize = 0;
        while i < n
            invariant
                j < self.post_exclusions@.len(),
                self.post_exclusions@[j as int].post_id@ == post_id@,
                n == self.post_exclusions@[j as int].excluded@.len(),
                0 <= i <= n,
                forall|k: int|
                    0 <= k < i ==> (#[trigger] self.post_exclusions@[j as int].excluded@[k]@)
                        != account_id@,
                exclusion_ids_unique(self.post_exclusions@),
            decreases n - i,
        {
            if self.post_exclusions[j].excluded[i] == account_id {
                proof {
                    assert(names_contain(
                        self.post_exclusions@[j as int].excluded@,
                        account_id@,
                    ));
                }
                return true;
            }
            i += 1;
        }
        proof {
            if self.spec_is_excluded(post_id@, account_id@) {
                let w = choose|i2: int|
                    0 <= i2 < self.post_exclusions@.len() && (#[trigger] self.post_exclusions@[
                        i2
                    ].post_id@) == post_id@ && names_contain(
                        self.post_exclusions@[i2].excluded@,
                        account_id@,
                    );
                if w != j as int {
                    assert(false);
                }
                let w2 = choose|k: int|
                    0 <= k < self.post_exclusions@[j as int].excluded@.len() && (
                    #[trigger] self.post_exclusions@[j as int].excluded@[k]@) == account_id@;
                assert(false);
            }
        }
        false
    }

    /// Whether `account_id` may read post `post_id` at host time `now`:
    /// a missing post grants nothing, a free post grants everyone, an
    /// exclusion bars, and otherwise a live pass for the post's source
    /// decides.
    pub fn has_post_access(&self, account_id: String, post_id: String, now: u64) -> (r: bool)
        requires
            self.wf(),
        ensures
            !has_post(self.posts@, post_id@) ==> r == false,
            has_post(self.posts@, post_id@) && !self.spec_post_of(post_id@).is_premium ==> r
                == true,
            has_post(self.posts@, post_id@) && self.spec_post_of(post_id@).is_premium
                && self.spec_is_excluded(post_id@, account_id@) ==> r == false,
            has_post(self.posts@, post_id@) && self.spec_post_of(post_id@).is_premium
                && !self.spec_is_excluded(post_id@, account_id@) ==> r == self.spec_has_access(
                account_id@,
                self.spec_post_of(post_id@).source_hash@,
                now,
            ),
    {
        let j = match self.find_post(&post_id) {
            Some(j) => j,
            None => {
                return false;
            },
        };
        proof {
            let w = choose|i: int|
                0 <= i < self.posts@.len() && (#[trigger] self.posts@[i].post_id@) == post_id@;
            if w != j as int {
                assert(false);
            }
        }
        if !self.posts[j].is_premium {
            return true;
        }
        let source_hash = self.posts[j].source_hash.clone();
        if self.is_excluded(post_id, account_id.clone()) {
            return false;
        }
        self.has_access(account_id, source_hash, now)
    }

    /// The pass data of token `token_id`, if any.
    pub fn get_access_pass(&self, token_id: TokenId) -> (r: Option<AccessPassData>)
        requires
            self.wf(),
        ensures
            r is Some <==> has_token(self.tokens@, token_id@),
            r matches Some(p) ==> p == self.spec_token_of(token_id@).pass,
    {
        match self.find_token(&token_id) {
            Some(j) => {
                proof {
                    let w = choose|i: int|
                        0 <= i < self.tokens@.len() && (#[trigger] self.tokens@[i].token_id@)
                            == token_id@;
                    if w != j as int {
                        assert(false);
                    }
                }
                Some(self.tokens[j].pass.clone())
            },
            None => None,
        }
    }

    /// The owner and metadata of token `token_id`, if any; the
    /// serialized views the surrounding plumbing hands out are built
    /// from this.
    pub fn nft_token(&self, token_id: TokenId) -> (r: Option<(String, TokenMetadata)>)
        requires
            self.wf(),
        ensures
            r is Some <==> has_token(self.tokens@, token_id@),
            r matches Some(t) ==> t.0 == self.spec_token_of(token_id@).owner_id && t.1
                == self.spec_token_of(token_id@).metadata,
    {
        match self.find_token(&token_id) {
            Some(j) => {
                proof {
                    let w = choose|i: int|
                        0 <= i < self.tokens@.len() && (#[trigger] self.tokens@[i].token_id@)
                            == token_id@;
                    if w != j as int {
                        assert(false);
                    }
                }
                Some((self.tokens[j].owner_id.clone(), self.tokens[j].metadata.clone()))
            },
            None => None,
        }
    }

    /// The number of minted access passes.
    pub fn nft_total_supply(&self) -> (r: u64)
        ensures
            r == self.tokens@.len(),
    {
        self.tokens.len() as u64
    }

    /// Replaces the platform fee, owner only; the fee stays at most
    /// 10%.
    pub fn set_platform_fee(&mut self, caller: String, new_fee_bps: u16) -> (r: Result<
        (),
        FeedError,
    >)
        requires
            old(self).wf(),
        ensures
            final(self).wf(),
            r is Err ==> *final(self) == *old(self),
            r == Err::<(), FeedError>(FeedError::OnlyOwner) <==> caller@ != old(self).owner_id@,
            r == Err::<(), FeedError>(FeedError::FeeTooHigh) <==> (caller@ == old(self).owner_id@
                && new_fee_bps > 1000),
            r is Ok ==> final(self).platform_fee_bps == new_fee_bps && final(self).sources == old(
                self,
            ).sources && final(self).posts == old(self).posts && final(self).tokens == old(
                self,
            ).tokens,
    {
        if !(caller == self.owner_id) {
            return Err(FeedError::OnlyOwner);
        }
        if new_fee_bps > 1000 {
            return Err(FeedError::FeeTooHigh);
        }
        self.platform_fee_bps = new_fee_bps;
        Ok(())
    }
}

// ---------------------------------------------------------------------------
// Identifier injectivity
// ---------------------------------------------------------------------------

proof fn lemma_dec_rep_len(n: int)
    requires
        n >= 0,
    ensures
        dec_rep(n).len() >= 1,
        n >= 10 ==> dec_rep(n).len() >= 2,
    decreases n,
{
    if n >= 10 {
        lemma_dec_rep_len(n / 10);
    }
}

proof fn lemma_digit_char_injective(a: int, b: int)
    requires
        0 <= a < 10,
        0 <= b < 10,
        a != b,
    ensures
        digit_char(a) != digit_char(b),
{
    reveal_strlit("0123456789");
}

/// Distinct numbers have distinct decimal representations.
proof fn lemma_dec_rep_injective(a: int, b: int)
    requires
        0 <= a,
        0 <= b,
        a != b,
    ensures
        dec_rep(a) != dec_rep(b),
    decreases a + b,
{
    if a < 10 && b < 10 {
        lemma_digit_char_injective(a, b);
        assert(dec_rep(a)[0] == digit_char(a));
        assert(dec_rep(b)[0] == digit_char(b));
    } else if a < 10 {
        lemma_dec_rep_len(a);
        lemma_dec_rep_len(b);
    } else if b < 10 {
        lemma_dec_rep_len(a);
        lemma_dec_rep_len(b);
    } else {
        if a % 10 != b % 10 {
            lemma_digit_char_injective(a % 10, b % 10);
            if dec_rep(a) == dec_rep(b) {
                assert(dec_rep(a).last() == digit_char(a % 10));
                assert(dec_rep(b).last() == digit_char(b % 10));
                assert(false);
            }
        } else if a / 10 != b / 10 {
            lemma_dec_rep_injective(a / 10, b / 10);
            if dec_rep(a) == dec_rep(b) {
                assert(dec_rep(a).drop_last() =~= dec_rep(a / 10));
                assert(dec_rep(b).drop_last() =~= dec_rep(b / 10));
                assert(false);
            }
        } else {
            assert(a == 10 * (a / 10) + a % 10);
            assert(b == 10 * (b / 10) + b % 10);
            assert(false);
        }
    }
}

/// Distinct numbers give distinct identifiers under a common prefix.
pub proof fn lemma_minted_id_injective(p: Seq<char>, a: int, b: int)
    requires
        0 <= a,
        0 <= b,
        a != b,
    ensures
        p + dec_rep(a) != p + dec_rep(b),
{
    lemma_dec_rep_injective(a, b);
    if p + dec_rep(a) == p + dec_rep(b) {
        assert((p + dec_rep(a)).skip(p.len() as int) =~= dec_rep(a));
        assert((p + dec_rep(b)).skip(p.len() as int) =~= dec_rep(b));
        assert(false);
    }
}

// ---------------------------------------------------------------------------
// Posts, passes, exclusions and transfer
// ---------------------------------------------------------------------------

/// The first package in `s` whose identifier reads `id`.
pub open spec fn first_package(s: Seq<Package>, id: Seq<char>) -> Option<Package>
    decreases s.len(),
{
    if s.len() == 0 {
        None
    } else if s[0].id@ == id {
        Some(s[0])
    } else {
        first_package(s.drop_first(), id)
    }
}

/// Nanoseconds in one day.
pub open spec fn spec_ns_per_day() -> int {
    86_400_000_000_000
}

/// The source list after bumping one counter of the source under
/// `key`: that source's post count (when `posts` is set) or subscriber
/// count (otherwise) grows by one; everything else is untouched.
pub open spec fn source_counter_bumped(
    pre: Seq<Source>,
    post: Seq<Source>,
    key: Seq<char>,
    posts: bool,
) -> bool {
    exists|j: int|
        {
            &&& 0 <= j < pre.len()
            &&& (#[trigger] pre[j].codename_hash@) == key
            &&& post.len() == pre.len()
            &&& (forall|i: int| 0 <= i < pre.len() && i != j ==> post[i] == pre[i])
            &&& post[j].codename_hash == pre[j].codename_hash
            &&& post[j].public_key == pre[j].public_key
            &&& post[j].packages == pre[j].packages
            &&& post[j].created_at == pre[j].created_at
            &&& post[j].is_active == pre[j].is_active
            &&& post[j].post_count == pre[j].post_count + (if posts {
                1int
            } else {
                0int
            })
            &&& post[j].subscriber_count == pre[j].subscriber_count + (if posts {
                0int
            } else {
                1int
            })
        }
}

impl HumintFeed {
    /// Anchors a post under `post_id` for the source registered under
    /// `codename_hash`, at host time `now`. Fails `SourceNotFound` for
    /// an unknown source, `SourceInactive` for one not accepting posts,
    /// `PostExists` for an identifier already anchored, and
    /// `InvalidHash` for a content hash that is not 64 hex characters.
    pub fn anchor_post(
        &mut self,
        now: u64,
        post_id: String,
        codename_hash: String,
        content_hash: String,
        content_cid: String,
        is_premium: bool,
        epoch: String,
        zk_proofs: Vec<String>,
    ) -> (r: Result<(), FeedError>)
        requires
            old(self).wf(),
            // machine limit: the post counter has room
            has_source(old(self).sources@, codename_hash@) ==> old(self).spec_source_of(
                codename_hash@,
            ).post_count < u64::MAX,
        ensures
            final(self).wf(),
            r is Err ==> *final(self) == *old(self),
            r == Err::<(), FeedError>(FeedError::SourceNotFound) <==> !has_source(
                old(self).sources@,
                codename_hash@,
            ),
            r == Err::<(), FeedError>(FeedError::SourceInactive) <==> (has_source(
                old(self).sources@,
                codename_hash@,
            ) && !old(self).spec_source_of(codename_hash@).is_active),
            r == Err::<(), FeedError>(FeedError::PostExists) <==> (has_source(
                old(self).sources@,
                codename_hash@,
            ) && old(self).spec_source_of(codename_hash@).is_active && has_post(
                old(self).posts@,
                post_id@,
            )),
            r == Err::<(), FeedError>(FeedError::InvalidHash) <==> (has_source(
                old(self).sources@,
                codename_hash@,
            ) && old(self).spec_source_of(codename_hash@).is_active && !has_post(
                old(self).posts@,
                post_id@,
            ) && !spec_is_hex_64(content_hash@)),
            r is Ok <==> (has_source(old(self).sources@, codename_hash@) && old(
                self,
            ).spec_source_of(codename_hash@).is_active && !has_post(old(self).posts@, post_id@)
                && spec_is_hex_64(content_hash@)),
            r is Ok ==> {
                &&& final(self).posts@.len() == old(self).posts@.len() + 1
                &&& (forall|i: int|
                    0 <= i < old(self).posts@.len() ==> (#[trigger] final(self).posts@[i]) == old(
                        self,
                    ).posts@[i])
                &&& final(self).posts@.last().post_id == post_id
                &&& final(self).posts@.last().content_hash == content_hash
                &&& final(self).posts@.last().content_cid == content_cid
                &&& final(self).posts@.last().is_premium == is_premium
                &&& final(self).posts@.last().epoch == epoch
                &&& final(self).posts@.last().created_at == now
                &&& final(self).posts@.last().source_hash == codename_hash
                &&& final(self).posts@.last().zk_proofs == zk_proofs
                &&& source_counter_bumped(
                    old(self).sources@,
                    final(self).sources@,
                    codename_hash@,
                    true,
                )
                &&& final(self).tokens == old(self).tokens
                &&& final(self).post_exclusions == old(self).post_exclusions
                &&& final(self).next_token_id == old(self).next_token_id
            },
    {
        let j = match self.find_source(&codename_hash) {
            Some(j) => j,
            None => {
                return Err(FeedError::SourceNotFound);
            },
        };
        let ghost pre = *self;
        proof {
            let w = choose|i: int|
                0 <= i < pre.sources@.len() && (#[trigger] pre.sources@[i].codename_hash@)
                    == codename_hash@;
            if w != j as int {
                assert(false);
            }
        }
        if !self.sources[j].is_active {
            return Err(FeedError::SourceInactive);
        }
        if self.find_post(&post_id).is_some() {
            return Err(FeedError::PostExists);
        }
        if !is_hex_64(content_hash.as_str()) {
            return Err(FeedError::InvalidHash);
        }
        let ghost g_post_id = post_id@;
        let source_key = codename_hash.clone();
        self.posts.push(
            PostAnchor {
                post_id,
                content_hash,
                content_cid,
                is_premium,
                epoch,
                created_at: now,
                source_hash: codename_hash,
                zk_proofs,
            },
        );
        let c = self.sources[j].post_count;
        self.sources[j].post_count = c + 1;
        proof {
            let n = pre.posts@.len() as int;
            assert forall|i: int, k: int| 0 <= i < k < self.posts@.len() implies (
            #[trigger] self.posts@[i].post_id@) != (#[trigger] self.posts@[k].post_id@) by {
                if k < n {
                    assert(pre.posts@[i].post_id@ != pre.posts@[k].post_id@);
                } else {
                    if self.posts@[i].post_id@ == g_post_id {
                        assert(has_post(pre.posts@, g_post_id));
                    }
                }
            }
            assert forall|i: int| 0 <= i < self.sources@.len() implies (
            #[trigger] self.sources@[i].codename_hash@) == pre.sources@[i].codename_hash@
                && packages_valid(self.sources@[i].packages@) && spec_is_hex_64(
                self.sources@[i].codename_hash@,
            ) by {
                if i != j as int {
                    assert(self.sources@[i] == pre.sources@[i]);
                }
                assert(packages_valid(pre.sources@[i].packages@));
                assert(spec_is_hex_64(pre.sources@[i].codename_hash@));
            }
            assert(source_counter_bumped(pre.sources@, self.sources@, source_key@, true));
        }
        Ok(())
    }

    /// The post anchored under `post_id`, if any.
    pub fn get_post(&self, post_id: String) -> (r: Option<PostAnchor>)
        requires
            self.wf(),
        ensures
            r is Some <==> has_post(self.posts@, post_id@),
            r matches Some(p) ==> {
                let stored = self.spec_post_of(post_id@);
                &&& p.post_id == stored.post_id
                &&& p.content_hash == stored.content_hash
                &&& p.content_cid == stored.content_cid
                &&& p.is_premium == stored.is_premium
                &&& p.epoch == stored.epoch
                &&& p.created_at == stored.created_at
                &&& p.source_hash == stored.source_hash
                &&& p.zk_proofs@ == stored.zk_proofs@
            },
    {
        match self.find_post(&post_id) {
            Some(j) => {
                proof {
                    let w = choose|i: int|
                        0 <= i < self.posts@.len() && (#[trigger] self.posts@[i].post_id@)
                            == post_id@;
                    if w != j as int {
                        assert(false);
                    }
                }
                Some(self.posts[j].clone())
            },
            None => None,
        }
    }

    /// Index of the first package with identifier `id` in the packages
    /// of source `j`, if any.
    fn find_package(&self, j: usize, id: &String) -> (r: Option<usize>)
        requires
            j < self.sources@.len(),
        ensures
            match r {
                Some(k) => k < self.sources@[j as int].packages@.len() && self.sources@[
                    j as int
                ].packages@[k as int].id@ == id@ && first_package(
                    self.sources@[j as int].packages@,
                    id@,
                ) == Some(self.sources@[j as int].packages@[k as int]),
                None => first_package(self.sources@[j as int].packages@, id@) is None,
            },
    {
        let ghost s = self.sources@[j as int].packages@;
        proof {
            assert(s.skip(0) =~= s);
        }
        let n = self.sources[j].packages.len();
        let mut i: usize = 0;
        while i < n
            invariant
                j < self.sources@.len(),
                s == self.sources@[j as int].packages@,
                n == s.len(),
                0 <= i <= n,
                first_package(s, id@) == first_package(s.skip(i as int), id@),
                forall|k: int| 0 <= k < i ==> (#[trigger] s[k].id@) != id@,
            decreases n - i,
        {
            proof {
                assert(s.skip(i as int)[0] == s[i as int]);
                assert(s.skip(i as int).drop_first() =~= s.skip(i as int + 1));
            }
            if self.sources[j].packages[i].id == *id {
                proof {
                    assert(first_package(s.skip(i as int), id@) == Some(s[i as int]));
                }
                return Some(i);
            }
            i += 1;
        }
        proof {
            assert(s.skip(n as int) =~= Seq::<Package>::empty());
            assert(first_package(s.skip(n as int), id@) is None);
        }
        None
    }

    /// Mints an access pass for `receiver_id` on `source_hash`'s
    /// package `package_id`, owner only, at host time `now`. The token
    /// identifier is `ap-` followed by the running counter; the pass
    /// expires `duration_days` after `now` (never, for a zero
    /// duration).
    pub fn mint_access_pass(
        &mut self,
        caller: String,
        now: u64,
        receiver_id: String,
        source_hash: String,
        package_id: String,
        amount_paid_usdc_cents: u32,
    ) -> (r: Result<TokenId, FeedError>)
        requires
            old(self).wf(),
            // machine limits: the token and subscriber counters have
            // room, and the expiry fits in nanoseconds
            old(self).next_token_id < u64::MAX,
            has_source(old(self).sources@, source_hash@) ==> old(self).spec_source_of(
                source_hash@,
            ).subscriber_count < u64::MAX,
            has_source(old(self).sources@, source_hash@) ==> (first_package(
                old(self).spec_source_of(source_hash@).packages@,
                package_id@,
            ) matches Some(p) ==> (p.duration_days as int) * spec_ns_per_day() + now
                <= u64::MAX as int),
        ensures
            final(self).wf(),
            r is Err ==> *final(self) == *old(self),
            r == Err::<TokenId, FeedError>(FeedError::OnlyOwner) <==> caller@ != old(
                self,
            ).owner_id@,
            r == Err::<TokenId, FeedError>(FeedError::SourceNotFound) <==> (caller@ == old(
                self,
            ).owner_id@ && !has_source(old(self).sources@, source_hash@)),
            r == Err::<TokenId, FeedError>(FeedError::PackageNotFound) <==> (caller@ == old(
                self,
            ).owner_id@ && has_source(old(self).sources@, source_hash@) && first_package(
                old(self).spec_source_of(source_hash@).packages@,
                package_id@,
            ) is None),
            r is Ok <==> (caller@ == old(self).owner_id@ && has_source(
                old(self).sources@,
                source_hash@,
            ) && first_package(old(self).spec_source_of(source_hash@).packages@, package_id@)
                is Some),
            r matches Ok(tid) ==> {
                let pk = first_package(
                    old(self).spec_source_of(source_hash@).packages@,
                    package_id@,
                )->Some_0;
                &&& tid@ == "ap-"@ + dec_rep(old(self).next_token_id as int)
                &&& final(self).next_token_id == old(self).next_token_id + 1
                &&& final(self).tokens@.len() == old(self).tokens@.len() + 1
                &&& (forall|i: int|
                    0 <= i < old(self).tokens@.len() ==> (#[trigger] final(self).tokens@[i]) == old(
                        self,
                    ).tokens@[i])
                &&& final(self).tokens@.last().token_id@ == tid@
                &&& final(self).tokens@.last().owner_id == receiver_id
                &&& final(self).tokens@.last().pass.source_hash == source_hash
                &&& final(self).tokens@.last().pass.package_id == package_id
                &&& final(self).tokens@.last().pass.started_at == now
                &&& final(self).tokens@.last().pass.expires_at == (if pk.duration_days == 0 {
                    0int
                } else {
                    now + (pk.duration_days as int) * spec_ns_per_day()
                })
                &&& final(self).tokens@.last().pass.amount_paid_usdc_cents
                    == amount_paid_usdc_cents
                &&& final(self).tokens@.last().metadata.title matches Some(t) && t@
                    == source_hash@.subrange(0, 8) + " - "@ + pk.name@
                &&& final(self).tokens@.last().metadata.description matches Some(d) && d@
                    == "Access pass for "@ + pk.name@ + " content"@
                &&& final(self).tokens@.last().metadata.issued_at matches Some(ts) && ts@
                    == dec_rep(now as int)
                &&& source_counter_bumped(
                    old(self).sources@,
                    final(self).sources@,
                    source_hash@,
                    false,
                )
                &&& final(self).posts == old(self).posts
                &&& final(self).post_exclusions == old(self).post_exclusions
            },
    {
        if !(caller == self.owner_id) {
            return Err(FeedError::OnlyOwner);
        }
        let j = match self.find_source(&source_hash) {
            Some(j) => j,
            None => {
                return Err(FeedError::SourceNotFound);
            },
        };
        let ghost pre = *self;
        proof {
            let w = choose|i: int|
                0 <= i < pre.sources@.len() && (#[trigger] pre.sources@[i].codename_hash@)
                    == source_hash@;
            if w != j as int {
                assert(false);
            }
        }
        let k = match self.find_package(j, &package_id) {
            Some(k) => k,
            None => {
                return Err(FeedError::PackageNotFound);
            },
        };
        let pk_name = self.sources[j].packages[k].name.clone();
        let duration_days = self.sources[j].packages[k].duration_days;
        let expires_at: u64 = if duration_days == 0 {
            0
        } else {
            proof {
                assert((duration_days as int) * spec_ns_per_day() + now <= u64::MAX as int);
                assert(duration_days as int * 86_400_000_000_000int == (duration_days as int)
                    * spec_ns_per_day());
            }
            now + duration_days as u64 * 86_400_000_000_000u64
        };

        let counter = self.next_token_id;
        let tid_digits = dec_string(counter);
        let token_id: String = "ap-".to_owned().concat(tid_digits.as_str());
        let ghost g_tid = token_id@;
        proof {
            assert(g_tid == "ap-"@ + dec_rep(counter as int));
        }

        let pass = AccessPassData {
            source_hash: source_hash.clone(),
            package_id,
            started_at: now,
            expires_at,
            amount_paid_usdc_cents,
        };
        proof {
            assert(spec_is_hex_64(pre.sources@[j as int].codename_hash@));
            assert(source_hash@ == pre.sources@[j as int].codename_hash@);
            crate::hex::lemma_hex_is_ascii(source_hash@);
        }
        let title = source_hash.as_str().substring_ascii(0, 8).to_owned().concat(" - ").concat(
            pk_name.as_str(),
        );
        let description = "Access pass for ".to_owned().concat(pk_name.as_str()).concat(" content");
        let issued = dec_string(now);
        let metadata = TokenMetadata {
            title: Some(title),
            description: Some(description),
            media: None,
            media_hash: None,
            copies: Some(1),
            issued_at: Some(issued),
            expires_at: if expires_at > 0 {
                Some(dec_string(expires_at))
            } else {
                None
            },
            starts_at: Some(dec_string(now)),
            updated_at: Some(dec_string(now)),
            extra: None,
            reference: None,
            reference_hash: None,
        };
        let result_id = token_id.clone();
        self.tokens.push(
            TokenEntry { token_id, owner_id: receiver_id, metadata, pass },
        );
        let sc = self.sources[j].subscriber_count;
        self.sources[j].subscriber_count = sc + 1;
        self.next_token_id = counter + 1;
        proof {
            let n = pre.tokens@.len() as int;
            // the fresh identifier collides with no minted one
            assert forall|i: int, k2: int| 0 <= i < k2 < self.tokens@.len() implies (
            #[trigger] self.tokens@[i].token_id@) != (#[trigger] self.tokens@[k2].token_id@) by {
                if k2 < n {
                    assert(pre.tokens@[i].token_id@ != pre.tokens@[k2].token_id@);
                } else {
                    assert(token_id_minted(pre.tokens@[i].token_id@, pre.next_token_id));
                    let kk = choose|kk: int|
                        0 <= kk < pre.next_token_id && pre.tokens@[i].token_id@ == "ap-"@ + (
                        #[trigger] dec_rep(kk));
                    lemma_minted_id_injective("ap-"@, kk, counter as int);
                }
            }
            assert forall|i: int| 0 <= i < self.tokens@.len() implies token_id_minted(
                (#[trigger] self.tokens@[i]).token_id@,
                self.next_token_id,
            ) by {
                if i < n {
                    assert(token_id_minted(pre.tokens@[i].token_id@, pre.next_token_id));
                    let kk = choose|kk: int|
                        0 <= kk < pre.next_token_id && pre.tokens@[i].token_id@ == "ap-"@ + (
                        #[trigger] dec_rep(kk));
                    assert(self.tokens@[i].token_id@ == "ap-"@ + dec_rep(kk));
                } else {
                    assert(self.tokens@[i].token_id@ == "ap-"@ + dec_rep(counter as int));
                }
            }
            assert forall|i: int| 0 <= i < self.sources@.len() implies (
            #[trigger] self.sources@[i].codename_hash@) == pre.sources@[i].codename_hash@
                && packages_valid(self.sources@[i].packages@) && spec_is_hex_64(
                self.sources@[i].codename_hash@,
            ) by {
                if i != j as int {
                    assert(self.sources@[i] == pre.sources@[i]);
                }
                assert(packages_valid(pre.sources@[i].packages@));
                assert(spec_is_hex_64(pre.sources@[i].codename_hash@));
            }
            assert(source_counter_bumped(pre.sources@, self.sources@, source_hash@, false));
        }
        Ok(result_id)
    }

    /// Bars `excluded_account` from post `post_id`, owner only. Adding
    /// an account twice changes nothing.
    pub fn add_exclusion(&mut self, caller: String, post_id: String, excluded_account: String) -> (r:
        Result<(), FeedError>)
        requires
            old(self).wf(),
        ensures
            final(self).wf(),
            r is Err ==> *final(self) == *old(self),
            r == Err::<(), FeedError>(FeedError::PostNotFound) <==> !has_post(
                old(self).posts@,
                post_id@,
            ),
            r == Err::<(), FeedError>(FeedError::OnlyOwner) <==> (has_post(
                old(self).posts@,
                post_id@,
            ) && caller@ != old(self).owner_id@),
            r is Ok <==> (has_post(old(self).posts@, post_id@) && caller@ == old(self).owner_id@),
            r is Ok ==> {
                &&& final(self).spec_is_excluded(post_id@, excluded_account@)
                &&& (forall|pid: Seq<char>, who: Seq<char>|
                    !(pid == post_id@ && who == excluded_account@) ==> (#[trigger] final(self).spec_is_excluded(pid, who)) == old(self).spec_is_excluded(pid, who))
                &&& final(self).posts == old(self).posts
                &&& final(self).sources == old(self).sources
                &&& final(self).tokens == old(self).tokens
            },
    {
        if self.find_post(&post_id).is_none() {
            return Err(FeedError::PostNotFound);
        }
        if !(caller == self.owner_id) {
            return Err(FeedError::OnlyOwner);
        }
        let ghost pre = *self;
        let ghost g_pid = post_id@;
        let ghost g_who = excluded_account@;
        match self.find_exclusion(&post_id) {
            Some(j) => {
                proof {
                    let w = choose|i: int|
                        0 <= i < pre.post_exclusions@.len() && (#[trigger] pre.post_exclusions@[
                            i
                        ].post_id@) == g_pid;
                    if w != j as int {
                        assert(false);
                    }
                }
                let mut present = false;
                let n = self.post_exclusions[j].excluded.len();
                let mut i: usize = 0;
                while i < n
                    invariant
                        j < self.post_exclusions@.len(),
                        n == self.post_exclusions@[j as int].excluded@.len(),
                        0 <= i <= n,
                        g_who == excluded_account@,
                        present == exists|k: int|
                            0 <= k < i && (#[trigger] self.post_exclusions@[j as int].excluded@[
                                k
                            ]@) == g_who,
                    decreases n - i,
                {
                    if self.post_exclusions[j].excluded[i] == excluded_account {
                        present = true;
                    }
                    i += 1;
                }
                if !present {
                    self.post_exclusions[j].excluded.push(excluded_account);
                }
                proof {
                    lemma_exclusions_after_add(pre, *self, j as int, g_pid, g_who, !present);
                }
            },
            None => {
                let mut excluded: Vec<String> = Vec::new();
                excluded.push(excluded_account);
                self.post_exclusions.push(ExclusionEntry { post_id, excluded });
                proof {
                    lemma_exclusions_after_new(pre, *self, g_pid, g_who);
                }
            },
        }
        Ok(())
    }

    /// Lifts the bar of `excluded_account` from post `post_id`, owner
    /// only. Removing an absent account changes nothing.
    pub fn remove_exclusion(
        &mut self,
        caller: String,
        post_id: String,
        excluded_account: String,
    ) -> (r: Result<(), FeedError>)
        requires
            old(self).wf(),
        ensures
            final(self).wf(),
            r is Err ==> *final(self) == *old(self),
            r == Err::<(), FeedError>(FeedError::OnlyOwner) <==> caller@ != old(self).owner_id@,
            r is Ok <==> caller@ == old(self).owner_id@,
            r is Ok ==> {
                &&& !final(self).spec_is_excluded(post_id@, excluded_account@)
                &&& (forall|pid: Seq<char>, who: Seq<char>|
                    !(pid == post_id@ && who == excluded_account@) ==> (#[trigger] final(self).spec_is_excluded(pid, who)) == old(self).spec_is_excluded(pid, who))
                &&& final(self).posts == old(self).posts
                &&& final(self).sources == old(self).sources
                &&& final(self).tokens == old(self).tokens
            },
    {
        if !(caller == self.owner_id) {
            return Err(FeedError::OnlyOwner);
        }
        let ghost pre = *self;
        let ghost g_pid = post_id@;
        let ghost g_who = excluded_account@;
        let j = match self.find_exclusion(&post_id) {
            Some(j) => j,
            None => {
                proof {
                    lemma_exclusions_unchanged(*self, g_pid, g_who);
                }
                return Ok(());
            },
        };
        proof {
            let w = choose|i: int|
                0 <= i < pre.post_exclusions@.len() && (#[trigger] pre.post_exclusions@[
                    i
                ].post_id@) == g_pid;
            if w != j as int {
                assert(false);
            }
        }
        let n = self.post_exclusions[j].excluded.len();
        let mut i: usize = 0;
        let mut found: Option<usize> = None;
        while i < n
            invariant
                j < self.post_exclusions@.len(),
                n == self.post_exclusions@[j as int].excluded@.len(),
                0 <= i <= n,
                g_who == excluded_account@,
                match found {
                    None => forall|k: int|
                        0 <= k < i ==> (#[trigger] self.post_exclusions@[j as int].excluded@[k]@)
                            != g_who,
                    Some(f) => f < n && self.post_exclusions@[j as int].excluded@[f as int]@
                        == g_who,
                },
            decreases n - i,
        {
            if found.is_none() {
                let same = self.post_exclusions[j].excluded[i] == excluded_account;
                if same {
                    found = Some(i);
                }
            }
            i += 1;
        }
        match found {
            Some(f) => {
                self.post_exclusions[j].excluded.swap_remove(f);
                proof {
                    lemma_exclusions_after_remove(pre, *self, j as int, f as int, g_pid, g_who);
                }
            },
            None => {
                proof {
                    lemma_exclusions_unchanged(*self, g_pid, g_who);
                }
            },
        }
        Ok(())
    }

    /// Transfers token `token_id` to `receiver_id`. Fails
    /// `TokenNotFound` for an unknown token and `NotTokenOwner` when
    /// `caller` does not own it.
    pub fn nft_transfer(&mut self, caller: String, receiver_id: String, token_id: TokenId) -> (r:
        Result<(), FeedError>)
        requires
            old(self).wf(),
        ensures
            final(self).wf(),
            r is Err ==> *final(self) == *old(self),
            r == Err::<(), FeedError>(FeedError::TokenNotFound) <==> !has_token(
                old(self).tokens@,
                token_id@,
            ),
            r == Err::<(), FeedError>(FeedError::NotTokenOwner) <==> (has_token(
                old(self).tokens@,
                token_id@,
            ) && old(self).spec_token_of(token_id@).owner_id@ != caller@),
            r is Ok <==> (has_token(old(self).tokens@, token_id@) && old(self).spec_token_of(
                token_id@,
            ).owner_id@ == caller@),
            r is Ok ==> {
                &&& final(self).tokens@.len() == old(self).tokens@.len()
                &&& (forall|i: int|
                    0 <= i < old(self).tokens@.len() && old(self).tokens@[i].token_id@ != token_id@
                        ==> (#[trigger] final(self).tokens@[i]) == old(self).tokens@[i])
                &&& final(self).spec_token_of(token_id@).owner_id == receiver_id
                &&& final(self).spec_token_of(token_id@).token_id == old(self).spec_token_of(
                    token_id@,
                ).token_id
                &&& final(self).spec_token_of(token_id@).pass == old(self).spec_token_of(
                    token_id@,
                ).pass
                &&& final(self).posts == old(self).posts
                &&& final(self).sources == old(self).sources
            },
    {
        let j = match self.find_token(&token_id) {
            Some(j) => j,
            None => {
                return Err(FeedError::TokenNotFound);
            },
        };
        let ghost pre = *self;
        proof {
            let w = choose|i: int|
                0 <= i < pre.tokens@.len() && (#[trigger] pre.tokens@[i].token_id@) == token_id@;
            if w != j as int {
                assert(false);
            }
        }
        if !(self.tokens[j].owner_id == caller) {
            return Err(FeedError::NotTokenOwner);
        }
        self.tokens[j].owner_id = receiver_id;
        proof {
            assert forall|i: int| 0 <= i < self.tokens@.len() implies (
            #[trigger] self.tokens@[i].token_id@) == pre.tokens@[i].token_id@ by {
                if i != j as int {
                    assert(self.tokens@[i] == pre.tokens@[i]);
                }
            }
            assert forall|i: int| 0 <= i < self.tokens@.len() implies token_id_minted(
                (#[trigger] self.tokens@[i]).token_id@,
                self.next_token_id,
            ) by {
                assert(token_id_minted(pre.tokens@[i].token_id@, pre.next_token_id));
            }
            let w2 = choose|i: int|
                0 <= i < self.tokens@.len() && (#[trigger] self.tokens@[i].token_id@) == token_id@;
            assert(self.tokens@[j as int].token_id@ == token_id@);
            if w2 != j as int {
                assert(false);
            }
        }
        Ok(())
    }
}

/// The active sources of `s`, in order.
pub open spec fn active_sources(s: Seq<Source>) -> Seq<Source>
    decreases s.len(),
{
    if s.len() == 0 {
        Seq::empty()
    } else if s.last().is_active {
        active_sources(s.drop_last()).push(s.last())
    } else {
        active_sources(s.drop_last())
    }
}

/// The posts of source `hash` in `s`, in order.
pub open spec fn posts_of(s: Seq<PostAnchor>, hash: Seq<char>) -> Seq<PostAnchor>
    decreases s.len(),
{
    if s.len() == 0 {
        Seq::empty()
    } else if s.last().source_hash@ == hash {
        posts_of(s.drop_last(), hash).push(s.last())
    } else {
        posts_of(s.drop_last(), hash)
    }
}

/// The access passes of `who` in `s`, in order, as pairs of token
/// identifier and pass data.
pub open spec fn passes_of(s: Seq<TokenEntry>, who: Seq<char>) -> Seq<(TokenId, AccessPassData)>
    decreases s.len(),
{
    if s.len() == 0 {
        Seq::empty()
    } else if s.last().owner_id@ == who {
        passes_of(s.drop_last(), who).push((s.last().token_id, s.last().pass))
    } else {
        passes_of(s.drop_last(), who)
    }
}

/// Two sources agree on every field, with packages compared by
/// contents.
pub open spec fn source_like(a: Source, b: Source) -> bool {
    &&& a.codename_hash == b.codename_hash
    &&& a.public_key == b.public_key
    &&& a.packages@ == b.packages@
    &&& a.post_count == b.post_count
    &&& a.subscriber_count == b.subscriber_count
    &&& a.created_at == b.created_at
    &&& a.is_active == b.is_active
}

/// Two posts agree on every field, with proof kinds compared by
/// contents.
pub open spec fn post_like(a: PostAnchor, b: PostAnchor) -> bool {
    &&& a.post_id == b.post_id
    &&& a.content_hash == b.content_hash
    &&& a.content_cid == b.content_cid
    &&& a.is_premium == b.is_premium
    &&& a.epoch == b.epoch
    &&& a.created_at == b.created_at
    &&& a.source_hash == b.source_hash
    &&& a.zk_proofs@ == b.zk_proofs@
}

/// The window `lo..hi` that `from_index` and `limit` select from a
/// list of `n` items: start at `from_index` (default 0), take `limit`
/// (default 50, capped at 100).
pub open spec fn page_bounds(from_index: Option<u64>, limit: Option<u64>, n: int) -> (int, int) {
    let from = (match from_index {
        Some(f) => f as int,
        None => 0,
    });
    let lim = (match limit {
        Some(l) => if l <= 100 {
            l as int
        } else {
            100int
        },
        None => 50int,
    });
    let lo = if from <= n {
        from
    } else {
        n
    };
    let hi = if lo + lim <= n {
        lo + lim
    } else {
        n
    };
    (lo, hi)
}

impl Clone for NFTContractMetadata {
    fn clone(&self) -> (res: Self)
        ensures
            res == *self,
    {
        let res = NFTContractMetadata {
            spec_version: self.spec_version.clone(),
            name: self.name.clone(),
            symbol: self.symbol.clone(),
            icon: self.icon.clone(),
            base_uri: self.base_uri.clone(),
            reference: self.reference.clone(),
            reference_hash: self.reference_hash.clone(),
        };
        proof {
            assert(res.icon == self.icon);
            assert(res.base_uri == self.base_uri);
            assert(res.reference == self.reference);
            assert(res.reference_hash == self.reference_hash);
        }
        res
    }
}

impl HumintFeed {
    /// The collection metadata.
    pub fn nft_metadata(&self) -> (r: NFTContractMetadata)
        ensures
            r == self.metadata,
    {
        self.metadata.clone()
    }

    /// The active sources, paginated: `from_index` (default 0) into
    /// the active list, at most `limit` (default 50, capped at 100).
    pub fn list_sources(&self, from_index: Option<u64>, limit: Option<u64>) -> (r: Vec<Source>)
        ensures
            ({
                let (lo, hi) = page_bounds(from_index, limit, active_sources(self.sources@).len() as int);
                &&& r@.len() == hi - lo
                &&& forall|k: int|
                    0 <= k < r@.len() ==> source_like(
                        #[trigger] r@[k],
                        active_sources(self.sources@)[lo + k],
                    )
            }),
    {
        let n = self.sources.len();
        let mut active: Vec<Source> = Vec::new();
        let mut i: usize = 0;
        while i < n
            invariant
                n == self.sources@.len(),
                0 <= i <= n,
                active@.len() <= i,
                active@.len() == active_sources(self.sources@.take(i as int)).len(),
                forall|k: int|
                    0 <= k < active@.len() ==> source_like(
                        #[trigger] active@[k],
                        active_sources(self.sources@.take(i as int))[k],
                    ),
            decreases n - i,
        {
            proof {
                assert(self.sources@.take(i as int + 1).drop_last() =~= self.sources@.take(
                    i as int,
                ));
                assert(self.sources@.take(i as int + 1).last() == self.sources@[i as int]);
            }
            if self.sources[i].is_active {
                active.push(self.sources[i].clone());
            }
            i += 1;
        }
        proof {
            assert(self.sources@.take(n as int) =~= self.sources@);
        }
        let total = active.len();
        let from_v: usize = match from_index {
            Some(f) => {
                if f >= total as u64 {
                    total
                } else {
                    f as usize
                }
            },
            None => 0,
        };
        let lim_v: usize = match limit {
            Some(l) => {
                if l <= 100 {
                    l as usize
                } else {
                    100
                }
            },
            None => 50,
        };
        let hi_v: usize = if total - from_v > lim_v {
            from_v + lim_v
        } else {
            total
        };
        let mut out: Vec<Source> = Vec::new();
        let mut k: usize = from_v;
        while k < hi_v
            invariant
                from_v <= k <= hi_v <= total,
                total == active@.len(),
                out@.len() == k - from_v,
                forall|q: int|
                    0 <= q < out@.len() ==> source_like(#[trigger] out@[q], active@[from_v + q]),
            decreases hi_v - k,
        {
            out.push(active[k].clone());
            k += 1;
        }
        out
    }

    /// The posts of the source under `codename_hash`, paginated:
    /// `from_index` (default 0), at most `limit` (default 20, capped
    /// at 100).
    pub fn get_source_posts(
        &self,
        codename_hash: String,
        from_index: Option<u64>,
        limit: Option<u64>,
    ) -> (r: Vec<PostAnchor>)
        ensures
            ({
                let from = (match from_index {
                    Some(f) => f as int,
                    None => 0,
                });
                let lim = (match limit {
                    Some(l) => if l <= 100 {
                        l as int
                    } else {
                        100int
                    },
                    None => 20int,
                });
                let all = posts_of(self.posts@, codename_hash@);
                let lo = if from <= all.len() {
                    from
                } else {
                    all.len() as int
                };
                let hi = if lo + lim <= all.len() {
                    lo + lim
                } else {
                    all.len() as int
                };
                &&& r@.len() == hi - lo
                &&& forall|k: int| 0 <= k < r@.len() ==> post_like(#[trigger] r@[k], all[lo + k])
            }),
    {
        let n = self.posts.len();
        let mut matching: Vec<PostAnchor> = Vec::new();
        let mut i: usize = 0;
        while i < n
            invariant
                n == self.posts@.len(),
                0 <= i <= n,
                matching@.len() <= i,
                matching@.len() == posts_of(self.posts@.take(i as int), codename_hash@).len(),
                forall|k: int|
                    0 <= k < matching@.len() ==> post_like(
                        #[trigger] matching@[k],
                        posts_of(self.posts@.take(i as int), codename_hash@)[k],
                    ),
            decreases n - i,
        {
            proof {
                assert(self.posts@.take(i as int + 1).drop_last() =~= self.posts@.take(i as int));
                assert(self.posts@.take(i as int + 1).last() == self.posts@[i as int]);
            }
            if self.posts[i].source_hash == codename_hash {
                matching.push(self.posts[i].clone());
            }
            i += 1;
        }
        proof {
            assert(self.posts@.take(n as int) =~= self.posts@);
        }
        let total = matching.len();
        let from_v: usize = match from_index {
            Some(f) => {
                if f >= total as u64 {
                    total
                } else {
                    f as usize
                }
            },
            None => 0,
        };
        let lim_v: usize = match limit {
            Some(l) => {
                if l <= 100 {
                    l as usize
                } else {
                    100
                }
            },
            None => 20,
        };
        let hi_v: usize = if total - from_v > lim_v {
            from_v + lim_v
        } else {
            total
        };
        let mut out: Vec<PostAnchor> = Vec::new();
        let mut k: usize = from_v;
        while k < hi_v
            invariant
                from_v <= k <= hi_v <= total,
                total == matching@.len(),
                out@.len() == k - from_v,
                forall|q: int|
                    0 <= q < out@.len() ==> post_like(#[trigger] out@[q], matching@[from_v + q]),
            decreases hi_v - k,
        {
            out.push(matching[k].clone());
            k += 1;
        }
        out
    }

    /// All access passes owned by `account_id`, in mint order.
    pub fn get_access_passes(&self, account_id: String) -> (r: Vec<(TokenId, AccessPassData)>)
        ensures
            r@ == passes_of(self.tokens@, account_id@),
    {
        let n = self.tokens.len();
        let mut out: Vec<(TokenId, AccessPassData)> = Vec::new();
        let mut i: usize = 0;
        while i < n
            invariant
                n == self.tokens@.len(),
                0 <= i <= n,
                out@ == passes_of(self.tokens@.take(i as int), account_id@),
            decreases n - i,
        {
            proof {
                assert(self.tokens@.take(i as int + 1).drop_last() =~= self.tokens@.take(i as int));
                assert(self.tokens@.take(i as int + 1).last() == self.tokens@[i as int]);
            }
            if self.tokens[i].owner_id == account_id {
                out.push((self.tokens[i].token_id.clone(), self.tokens[i].pass.clone()));
            }
            i += 1;
        }
        proof {
            assert(self.tokens@.take(n as int) =~= self.tokens@);
        }
        out
    }
}

/// After adding one name to the exclusion entry at `j` (or touching
/// nothing when it was present), exactly the one pair changes.
proof fn lemma_exclusions_after_add(
    pre: HumintFeed,
    post: HumintFeed,
    j: int,
    pid: Seq<char>,
    who: Seq<char>,
    pushed: bool,
)
    requires
        pre.wf(),
        0 <= j < pre.post_exclusions@.len(),
        pre.post_exclusions@[j].post_id@ == pid,
        post.post_exclusions@.len() == pre.post_exclusions@.len(),
        forall|i: int|
            0 <= i < pre.post_exclusions@.len() && i != j ==> (#[trigger] post.post_exclusions@[i])
                == pre.post_exclusions@[i],
        post.post_exclusions@[j].post_id == pre.post_exclusions@[j].post_id,
        pushed ==> post.post_exclusions@[j].excluded@ == pre.post_exclusions@[j].excluded@.push(
            post.post_exclusions@[j].excluded@.last(),
        ) && post.post_exclusions@[j].excluded@.last()@ == who,
        !pushed ==> post.post_exclusions@[j] == pre.post_exclusions@[j] && names_contain(
            pre.post_exclusions@[j].excluded@,
            who,
        ),
        pushed ==> !names_contain(pre.post_exclusions@[j].excluded@, who),
    ensures
        exclusion_ids_unique(post.post_exclusions@),
        forall|i: int|
            0 <= i < post.post_exclusions@.len() ==> names_unique(
                (#[trigger] post.post_exclusions@[i]).excluded@,
            ),
        post.spec_is_excluded(pid, who),
        forall|pid2: Seq<char>, who2: Seq<char>|
            !(pid2 == pid && who2 == who) ==> #[trigger] post.spec_is_excluded(pid2, who2)
                == pre.spec_is_excluded(pid2, who2),
{
    assert forall|i: int, k: int| 0 <= i < k < post.post_exclusions@.len() implies (
    #[trigger] post.post_exclusions@[i].post_id@) != (#[trigger] post.post_exclusions@[k].post_id@) by {
        assert(pre.post_exclusions@[i].post_id@ != pre.post_exclusions@[k].post_id@);
        if i != j {
            assert(post.post_exclusions@[i] == pre.post_exclusions@[i]);
        }
        if k != j {
            assert(post.post_exclusions@[k] == pre.post_exclusions@[k]);
        }
    }
    assert forall|i: int|
        0 <= i < post.post_exclusions@.len() implies names_unique(
        (#[trigger] post.post_exclusions@[i]).excluded@,
    ) by {
        assert(names_unique(pre.post_exclusions@[i].excluded@));
        if i != j {
            assert(post.post_exclusions@[i] == pre.post_exclusions@[i]);
        } else {
            if pushed {
                let ex0 = pre.post_exclusions@[j].excluded@;
                let ex1 = post.post_exclusions@[j].excluded@;
                assert forall|a: int, b: int| 0 <= a < b < ex1.len() implies (#[trigger] ex1[a]@)
                    != (#[trigger] ex1[b]@) by {
                    if b < ex0.len() {
                        assert(ex1[a] == ex0[a]);
                        assert(ex1[b] == ex0[b]);
                    } else {
                        assert(ex1[a] == ex0[a]);
                        assert(ex1[b]@ == who);
                        if ex0[a]@ == who {
                            assert(names_contain(ex0, who));
                        }
                    }
                }
            }
        }
    }
    if pushed {
        let m = post.post_exclusions@[j].excluded@.len() - 1;
        assert(post.post_exclusions@[j].excluded@[m]@ == who);
        assert(names_contain(post.post_exclusions@[j].excluded@, who));
    }
    assert(post.spec_is_excluded(pid, who));
    assert forall|pid2: Seq<char>, who2: Seq<char>| !(pid2 == pid && who2 == who) implies #[trigger] post.spec_is_excluded(
        pid2,
        who2,
    ) == pre.spec_is_excluded(pid2, who2) by {
        if pid2 == pid {
            // same entry, other account
            if pre.spec_is_excluded(pid2, who2) {
                let w = choose|i: int|
                    0 <= i < pre.post_exclusions@.len() && (#[trigger] pre.post_exclusions@[
                        i
                    ].post_id@) == pid2 && names_contain(pre.post_exclusions@[i].excluded@, who2);
                if w != j {
                    assert(false);
                }
                let k = choose|k: int|
                    0 <= k < pre.post_exclusions@[j].excluded@.len() && (
                    #[trigger] pre.post_exclusions@[j].excluded@[k]@) == who2;
                assert(post.post_exclusions@[j].excluded@[k]@ == who2);
                assert(names_contain(post.post_exclusions@[j].excluded@, who2));
                assert(post.spec_is_excluded(pid2, who2));
            }
            if post.spec_is_excluded(pid2, who2) {
                let w = choose|i: int|
                    0 <= i < post.post_exclusions@.len() && (#[trigger] post.post_exclusions@[
                        i
                    ].post_id@) == pid2 && names_contain(post.post_exclusions@[i].excluded@, who2);
                if w != j {
                    assert(false);
                }
                let k = choose|k: int|
                    0 <= k < post.post_exclusions@[j].excluded@.len() && (
                    #[trigger] post.post_exclusions@[j].excluded@[k]@) == who2;
                if pushed && k == post.post_exclusions@[j].excluded@.len() - 1 {
                    assert(who2 == who);
                    assert(false);
                }
                assert(pre.post_exclusions@[j].excluded@[k]@ == who2);
                assert(names_contain(pre.post_exclusions@[j].excluded@, who2));
                assert(pre.spec_is_excluded(pid2, who2));
            }
        } else {
            if pre.spec_is_excluded(pid2, who2) {
                let w = choose|i: int|
                    0 <= i < pre.post_exclusions@.len() && (#[trigger] pre.post_exclusions@[
                        i
                    ].post_id@) == pid2 && names_contain(pre.post_exclusions@[i].excluded@, who2);
                assert(post.post_exclusions@[w] == pre.post_exclusions@[w]);
                assert(post.spec_is_excluded(pid2, who2));
            }
            if post.spec_is_excluded(pid2, who2) {
                let w = choose|i: int|
                    0 <= i < post.post_exclusions@.len() && (#[trigger] post.post_exclusions@[
                        i
                    ].post_id@) == pid2 && names_contain(post.post_exclusions@[i].excluded@, who2);
                if w == j {
                    assert(false);
                }
                assert(post.post_exclusions@[w] == pre.post_exclusions@[w]);
                assert(pre.spec_is_excluded(pid2, who2));
            }
        }
    }
}

/// After creating a fresh exclusion entry for `pid` holding only
/// `who`, exactly the one pair changes.
proof fn lemma_exclusions_after_new(pre: HumintFeed, post: HumintFeed, pid: Seq<char>, who: Seq<char>)
    requires
        pre.wf(),
        !has_exclusion_entry(pre.post_exclusions@, pid),
        post.post_exclusions@.len() == pre.post_exclusions@.len() + 1,
        forall|i: int|
            0 <= i < pre.post_exclusions@.len() ==> (#[trigger] post.post_exclusions@[i])
                == pre.post_exclusions@[i],
        post.post_exclusions@.last().post_id@ == pid,
        post.post_exclusions@.last().excluded@.len() == 1,
        post.post_exclusions@.last().excluded@[0]@ == who,
    ensures
        exclusion_ids_unique(post.post_exclusions@),
        forall|i: int|
            0 <= i < post.post_exclusions@.len() ==> names_unique(
                (#[trigger] post.post_exclusions@[i]).excluded@,
            ),
        post.spec_is_excluded(pid, who),
        forall|pid2: Seq<char>, who2: Seq<char>|
            !(pid2 == pid && who2 == who) ==> #[trigger] post.spec_is_excluded(pid2, who2)
                == pre.spec_is_excluded(pid2, who2),
{
    let n = pre.post_exclusions@.len() as int;
    assert forall|i: int|
        0 <= i < post.post_exclusions@.len() implies names_unique(
        (#[trigger] post.post_exclusions@[i]).excluded@,
    ) by {
        if i < n {
            assert(post.post_exclusions@[i] == pre.post_exclusions@[i]);
            assert(names_unique(pre.post_exclusions@[i].excluded@));
        }
    }
    assert forall|i: int, k: int| 0 <= i < k < post.post_exclusions@.len() implies (
    #[trigger] post.post_exclusions@[i].post_id@) != (#[trigger] post.post_exclusions@[k].post_id@) by {
        if k < n {
            assert(pre.post_exclusions@[i].post_id@ != pre.post_exclusions@[k].post_id@);
        } else {
            if post.post_exclusions@[i].post_id@ == pid {
                assert(has_exclusion_entry(pre.post_exclusions@, pid));
            }
        }
    }
    assert(names_contain(post.post_exclusions@[n].excluded@, who));
    assert(post.spec_is_excluded(pid, who));
    assert forall|pid2: Seq<char>, who2: Seq<char>| !(pid2 == pid && who2 == who) implies #[trigger] post.spec_is_excluded(
        pid2,
        who2,
    ) == pre.spec_is_excluded(pid2, who2) by {
        if pre.spec_is_excluded(pid2, who2) {
            let w = choose|i: int|
                0 <= i < pre.post_exclusions@.len() && (#[trigger] pre.post_exclusions@[
                    i
                ].post_id@) == pid2 && names_contain(pre.post_exclusions@[i].excluded@, who2);
            assert(post.post_exclusions@[w] == pre.post_exclusions@[w]);
            assert(post.spec_is_excluded(pid2, who2));
        }
        if post.spec_is_excluded(pid2, who2) {
            let w = choose|i: int|
                0 <= i < post.post_exclusions@.len() && (#[trigger] post.post_exclusions@[
                    i
                ].post_id@) == pid2 && names_contain(post.post_exclusions@[i].excluded@, who2);
            if w == n {
                assert(pid2 == pid);
                let k = choose|k: int|
                    0 <= k < post.post_exclusions@[n].excluded@.len() && (
                    #[trigger] post.post_exclusions@[n].excluded@[k]@) == who2;
                assert(k == 0);
                assert(who2 == who);
                assert(false);
            }
            assert(post.post_exclusions@[w] == pre.post_exclusions@[w]);
            assert(pre.spec_is_excluded(pid2, who2));
        }
    }
}

/// A state where `who` is not listed under `pid` keeps every exclusion
/// judgement as it is.
proof fn lemma_exclusions_unchanged(s: HumintFeed, pid: Seq<char>, who: Seq<char>)
    requires
        s.wf(),
        forall|j: int|
            0 <= j < s.post_exclusions@.len() && (#[trigger] s.post_exclusions@[j].post_id@) == pid
                ==> !names_contain(s.post_exclusions@[j].excluded@, who),
    ensures
        !s.spec_is_excluded(pid, who),
{
    if s.spec_is_excluded(pid, who) {
        let w = choose|i: int|
            0 <= i < s.post_exclusions@.len() && (#[trigger] s.post_exclusions@[i].post_id@) == pid
                && names_contain(s.post_exclusions@[i].excluded@, who);
        assert(false);
    }
}

/// After swap-removing the one occurrence of `who` in the entry at
/// `j`, exactly the one pair changes.
proof fn lemma_exclusions_after_remove(
    pre: HumintFeed,
    post: HumintFeed,
    j: int,
    f: int,
    pid: Seq<char>,
    who: Seq<char>,
)
    requires
        pre.wf(),
        0 <= j < pre.post_exclusions@.len(),
        pre.post_exclusions@[j].post_id@ == pid,
        0 <= f < pre.post_exclusions@[j].excluded@.len(),
        pre.post_exclusions@[j].excluded@[f]@ == who,
        // the invariant guarantees one occurrence per name
        names_unique(pre.post_exclusions@[j].excluded@),
        post.post_exclusions@.len() == pre.post_exclusions@.len(),
        forall|i: int|
            0 <= i < pre.post_exclusions@.len() && i != j ==> (#[trigger] post.post_exclusions@[i])
                == pre.post_exclusions@[i],
        post.post_exclusions@[j].post_id == pre.post_exclusions@[j].post_id,
        post.post_exclusions@[j].excluded@ == pre.post_exclusions@[j].excluded@.update(
            f,
            pre.post_exclusions@[j].excluded@.last(),
        ).drop_last(),
    ensures
        exclusion_ids_unique(post.post_exclusions@),
        forall|i: int|
            0 <= i < post.post_exclusions@.len() ==> names_unique(
                (#[trigger] post.post_exclusions@[i]).excluded@,
            ),
        !post.spec_is_excluded(pid, who),
        forall|pid2: Seq<char>, who2: Seq<char>|
            !(pid2 == pid && who2 == who) ==> #[trigger] post.spec_is_excluded(pid2, who2)
                == pre.spec_is_excluded(pid2, who2),
{
    let pre_ex = pre.post_exclusions@[j].excluded@;
    let post_ex = post.post_exclusions@[j].excluded@;
    let m = pre_ex.len() as int;
    assert forall|i: int, k: int| 0 <= i < k < post.post_exclusions@.len() implies (
    #[trigger] post.post_exclusions@[i].post_id@) != (#[trigger] post.post_exclusions@[k].post_id@) by {
        assert(pre.post_exclusions@[i].post_id@ != pre.post_exclusions@[k].post_id@);
        if i != j {
            assert(post.post_exclusions@[i] == pre.post_exclusions@[i]);
        }
        if k != j {
            assert(post.post_exclusions@[k] == pre.post_exclusions@[k]);
        }
    }
    assert forall|i: int, k: int| 0 <= i < k < post_ex.len() implies (#[trigger] post_ex[i]@) != (
    #[trigger] post_ex[k]@) by {
        let i0 = if i == f {
            m - 1
        } else {
            i
        };
        let k0 = if k == f {
            m - 1
        } else {
            k
        };
        assert(post_ex[i] == pre_ex[i0]);
        assert(post_ex[k] == pre_ex[k0]);
        assert(pre_ex[i0]@ != pre_ex[k0]@);
    }
    assert forall|i: int| 0 <= i < post.post_exclusions@.len() implies names_unique(
        (#[trigger] post.post_exclusions@[i]).excluded@,
    ) by {
        if i != j {
            assert(post.post_exclusions@[i] == pre.post_exclusions@[i]);
            assert(names_unique(pre.post_exclusions@[i].excluded@));
        }
    }
    // who is gone from the entry
    assert forall|k: int| 0 <= k < post_ex.len() implies (#[trigger] post_ex[k]@) != who by {
        let k0 = if k == f {
            m - 1
        } else {
            k
        };
        assert(post_ex[k] == pre_ex[k0]);
        if pre_ex[k0]@ == who {
            assert(pre_ex[f]@ == pre_ex[k0]@);
            assert(k0 == f);
            assert(false);
        }
    }
    if post.spec_is_excluded(pid, who) {
        let w = choose|i: int|
            0 <= i < post.post_exclusions@.len() && (#[trigger] post.post_exclusions@[i].post_id@)
                == pid && names_contain(post.post_exclusions@[i].excluded@, who);
        if w != j {
            assert(post.post_exclusions@[w] == pre.post_exclusions@[w]);
            assert(pre.post_exclusions@[w].post_id@ == pid);
            assert(false);
        }
        let k = choose|k: int| 0 <= k < post_ex.len() && (#[trigger] post_ex[k]@) == who;
        assert(false);
    }
    assert forall|pid2: Seq<char>, who2: Seq<char>| !(pid2 == pid && who2 == who) implies #[trigger] post.spec_is_excluded(
        pid2,
        who2,
    ) == pre.spec_is_excluded(pid2, who2) by {
        if pid2 == pid {
            if pre.spec_is_excluded(pid2, who2) {
                let w = choose|i: int|
                    0 <= i < pre.post_exclusions@.len() && (#[trigger] pre.post_exclusions@[
                        i
                    ].post_id@) == pid2 && names_contain(pre.post_exclusions@[i].excluded@, who2);
                if w != j {
                    assert(false);
                }
                let k = choose|k: int| 0 <= k < pre_ex.len() && (#[trigger] pre_ex[k]@) == who2;
                if k == f {
                    assert(who2 == who);
                    assert(false);
                }
                if k == m - 1 {
                    if f == m - 1 {
                        assert(who2 == who);
                        assert(false);
                    }
                    assert(post_ex[f] == pre_ex[m - 1]);
                    assert(names_contain(post_ex, who2));
                } else {
                    assert(post_ex[k] == pre_ex[k]);
                    assert(names_contain(post_ex, who2));
                }
                assert(post.spec_is_excluded(pid2, who2));
            }
            if post.spec_is_excluded(pid2, who2) {
                let w = choose|i: int|
                    0 <= i < post.post_exclusions@.len() && (#[trigger] post.post_exclusions@[
                        i
                    ].post_id@) == pid2 && names_contain(post.post_exclusions@[i].excluded@, who2);
                if w != j {
                    assert(post.post_exclusions@[w] == pre.post_exclusions@[w]);
                    assert(pre.spec_is_excluded(pid2, who2));
                } else {
                    let k = choose|k: int| 0 <= k < post_ex.len() && (#[trigger] post_ex[k]@)
                        == who2;
                    let k0 = if k == f {
                        m - 1
                    } else {
                        k
                    };
                    assert(pre_ex[k0] == post_ex[k]);
                    assert(names_contain(pre_ex, who2));
                    assert(pre.spec_is_excluded(pid2, who2));
                }
            }
        } else {
            if pre.spec_is_excluded(pid2, who2) {
                let w = choose|i: int|
                    0 <= i < pre.post_exclusions@.len() && (#[trigger] pre.post_exclusions@[
                        i
                    ].post_id@) == pid2 && names_contain(pre.post_exclusions@[i].excluded@, who2);
                if w == j {
                    assert(false);
                }
                assert(post.post_exclusions@[w] == pre.post_exclusions@[w]);
                assert(post.spec_is_excluded(pid2, who2));
            }
            if post.spec_is_excluded(pid2, who2) {
                let w = choose|i: int|
                    0 <= i < post.post_exclusions@.len() && (#[trigger] post.post_exclusions@[
                        i
                    ].post_id@) == pid2 && names_contain(post.post_exclusions@[i].excluded@, who2);
                if w == j {
                    assert(false);
                }
                assert(post.post_exclusions@[w] == pre.post_exclusions@[w]);
                assert(pre.spec_is_excluded(pid2, who2));
            }
        }
    }
}

} // verus!
