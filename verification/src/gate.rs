//! The content gate: key custody and decrypt-on-access decisions.
//!
//! One AES-256-GCM key is stored per source list; key use is gated on
//! an access decision supplied by the caller, and decrypts content
//! framed as `nonce (12 bytes) || ciphertext-with-tag`. Network fetches
//! and the NFT-ownership lookup live outside; this component only decides and
//! decrypts, and parses the lookup's response bytes.

use vstd::prelude::*;

verus! {

/// Why a gate operation was refused.
#[derive(Clone, Copy, PartialEq, Eq, Structural, Debug)]
pub enum Error {
    /// Caller is not the admin.
    Unauthorized,
    /// Signature blob is not the expected 64 bytes.
    InvalidSignature,
    /// Caller does not own the required access token.
    NoAccess,
    /// No key is registered for this list.
    ListNotFound,
    /// The content could not be decrypted.
    DecryptionFailed,
    /// The ownership lookup did not answer with status 200.
    HttpError,
    /// The ownership lookup answered without a result field.
    InvalidNearResponse,
}

/// One list with its decryption key.
pub struct ListKeyEntry {
    pub list_id: String,
    pub key: [u8; 32],
}

/// The custody state: the admin identity, the registered list keys, and
/// the endpoints the surrounding plumbing talks to.
pub struct ArgusContentGate {
    pub admin: String,
    pub list_keys: Vec<ListKeyEntry>,
    pub near_rpc: String,
    pub nft_contract: String,
}

/// Some entry in `s` is keyed by `list`.
pub open spec fn has_list_key(s: Seq<ListKeyEntry>, list: Seq<char>) -> bool {
    exists|i: int| 0 <= i < s.len() && (#[trigger] s[i].list_id@) == list
}

/// No two entries in `s` share a list identifier.
pub open spec fn list_ids_unique(s: Seq<ListKeyEntry>) -> bool {
    forall|i: int, j: int|
        0 <= i < j < s.len() ==> (#[trigger] s[i].list_id@) != (#[trigger] s[j].list_id@)
}

/// The plaintext that AES-256-GCM yields for a key, nonce and
/// ciphertext, or nothing when authentication fails. The algorithm is
/// deterministic in these three inputs; its definition is left to the
/// cipher implementation.
pub uninterp spec fn aes256_gcm_plaintext(key: Seq<u8>, nonce: Seq<u8>, ciphertext: Seq<u8>) -> Option<
    Seq<u8>,
>;

/// Relies on aes_gcm's `Aes256Gcm::new_from_slice` and `Aead::decrypt`:
/// decryption is a function of key, nonce and ciphertext alone, and
/// yields nothing when the authentication tag does not check out.
#[verifier::external_body]
fn aes256_gcm_open(key: &[u8; 32], nonce: &[u8], ciphertext: &[u8]) -> (r: Option<Vec<u8>>)
    requires
        nonce@.len() == 12,
    ensures
        match r {
            Some(p) => aes256_gcm_plaintext(key@, nonce@, ciphertext@) == Some(p@),
            None => aes256_gcm_plaintext(key@, nonce@, ciphertext@) == Option::<Seq<u8>>::None,
        },
{
    let cipher = match aes_gcm::aead::KeyInit::new_from_slice(key) {
        Ok(c) => c,
        Err(_) => return None,
    };
    let cipher: aes_gcm::Aes256Gcm = cipher;
    match aes_gcm::aead::Aead::decrypt(&cipher, aes_gcm::Nonce::from_slice(nonce), ciphertext) {
        Ok(p) => Some(p),
        Err(_) => None,
    }
}

/// The default host the surrounding plumbing queries for ownership.
pub open spec fn default_rpc() -> Seq<char> {
    "https://rpc.mainnet.fastnear.com"@
}

/// The default token ledger account the ownership query goes to.
pub open spec fn default_nft_contract() -> Seq<char> {
    "source-lists.argus-intel.near"@
}

impl ArgusContentGate {
    /// The custody invariant: one key per list identifier.
    pub open spec fn wf(self) -> bool {
        list_ids_unique(self.list_keys@)
    }

    /// The key of `list`; meaningful under `wf` and `has_list_key`.
    pub open spec fn spec_key_of(self, list: Seq<char>) -> Seq<u8> {
        self.list_keys@[choose|i: int|
            0 <= i < self.list_keys@.len() && (#[trigger] self.list_keys@[i].list_id@)
                == list].key@
    }

    /// A fresh gate administered by `admin`, with no keys and the
    /// default endpoints.
    pub fn new(admin: String) -> (r: ArgusContentGate)
        ensures
            r.wf(),
            r.admin == admin,
            r.list_keys@.len() == 0,
            r.near_rpc@ == default_rpc(),
            r.nft_contract@ == default_nft_contract(),
    {
        ArgusContentGate {
            admin,
            list_keys: Vec::new(),
            near_rpc: "https://rpc.mainnet.fastnear.com".to_owned(),
            nft_contract: "source-lists.argus-intel.near".to_owned(),
        }
    }

    /// Index of the key entry of `list`, if any.
    fn find_list(&self, list: &String) -> (r: Option<usize>)
        ensures
            match r {
                Some(j) => j < self.list_keys@.len() && self.list_keys@[j as int].list_id@ == list@
                    && has_list_key(self.list_keys@, list@),
                None => !has_list_key(self.list_keys@, list@),
            },
    {
        let n = self.list_keys.len();
        let mut i: usize = 0;
        while i < n
            invariant
                n == self.list_keys@.len(),
                0 <= i <= n,
                forall|k: int| 0 <= k < i ==> (#[trigger] self.list_keys@[k].list_id@) != list@,
            decreases n - i,
        {
            if self.list_keys[i].list_id == *list {
                return Some(i);
            }
            i += 1;
        }
        None
    }

    /// Registers (or replaces) the key of `list_id`, admin only.
    pub fn register_list(&mut self, caller: String, list_id: String, aes_key: [u8; 32]) -> (r:
        Result<(), Error>)
        requires
            old(self).wf(),
        ensures
            final(self).wf(),
            r is Err ==> *final(self) == *old(self),
            r == Err::<(), Error>(Error::Unauthorized) <==> caller@ != old(self).admin@,
            r is Ok ==> {
                &&& has_list_key(final(self).list_keys@, list_id@)
                &&& final(self).spec_key_of(list_id@) == aes_key@
                &&& final(self).admin == old(self).admin
                &&& final(self).near_rpc == old(self).near_rpc
                &&& final(self).nft_contract == old(self).nft_contract
                &&& forall|l: Seq<char>|
                    l != list_id@ ==> has_list_key(final(self).list_keys@, l) == has_list_key(
                        old(self).list_keys@,
                        l,
                    )
            },
    {
        if !(caller == self.admin) {
            return Err(Error::Unauthorized);
        }
        let ghost pre = *self;
        match self.find_list(&list_id) {
            Some(j) => {
                self.list_keys[j].key = aes_key;
                proof {
                    assert(self.list_keys@[j as int].list_id@ == list_id@);
                    assert forall|i: int| 0 <= i < self.list_keys@.len() implies (
                    #[trigger] self.list_keys@[i].list_id@) == pre.list_keys@[i].list_id@ by {
                        if i != j as int {
                            assert(self.list_keys@[i] == pre.list_keys@[i]);
                        }
                    }
                    let w = choose|i: int|
                        0 <= i < self.list_keys@.len() && (#[trigger] self.list_keys@[i].list_id@)
                            == list_id@;
                    if w != j as int {
                        assert(false);
                    }
                    assert forall|l: Seq<char>| l != list_id@ implies has_list_key(
                        self.list_keys@,
                        l,
                    ) == has_list_key(pre.list_keys@, l) by {
                        if has_list_key(pre.list_keys@, l) {
                            let w0 = choose|i: int|
                                0 <= i < pre.list_keys@.len() && (
                                #[trigger] pre.list_keys@[i].list_id@) == l;
                            assert(self.list_keys@[w0].list_id@ == l);
                        }
                        if has_list_key(self.list_keys@, l) {
                            let w0 = choose|i: int|
                                0 <= i < self.list_keys@.len() && (
                                #[trigger] self.list_keys@[i].list_id@) == l;
                            assert(pre.list_keys@[w0].list_id@ == l);
                        }
                    }
                }
            },
            None => {
                let ghost g_list = list_id@;
                self.list_keys.push(ListKeyEntry { list_id, key: aes_key });
                proof {
                    let n = pre.list_keys@.len() as int;
                    assert forall|i: int, j: int| 0 <= i < j < self.list_keys@.len() implies (
                    #[trigger] self.list_keys@[i].list_id@) != (
                    #[trigger] self.list_keys@[j].list_id@) by {
                        if j < n {
                            assert(pre.list_keys@[i].list_id@ != pre.list_keys@[j].list_id@);
                        } else {
                            if self.list_keys@[i].list_id@ == g_list {
                                assert(has_list_key(pre.list_keys@, g_list));
                            }
                        }
                    }
                    assert(self.list_keys@[n].list_id@ == g_list);
                    let w = choose|i: int|
                        0 <= i < self.list_keys@.len() && (#[trigger] self.list_keys@[i].list_id@)
                            == g_list;
                    if w != n {
                        assert(false);
                    }
                    assert forall|l: Seq<char>| l != g_list implies has_list_key(
                        self.list_keys@,
                        l,
                    ) == has_list_key(pre.list_keys@, l) by {
                        if has_list_key(pre.list_keys@, l) {
                            let w0 = choose|i: int|
                                0 <= i < pre.list_keys@.len() && (
                                #[trigger] pre.list_keys@[i].list_id@) == l;
                            assert(self.list_keys@[w0].list_id@ == l);
                        }
                        if has_list_key(self.list_keys@, l) {
                            let w0 = choose|i: int|
                                0 <= i < self.list_keys@.len() && (
                                #[trigger] self.list_keys@[i].list_id@) == l;
                            assert(pre.list_keys@[w0].list_id@ == l);
                        }
                    }
                }
            },
        }
        Ok(())
    }

    /// Whether a key is registered for `list_id`.
    pub fn has_list(&self, list_id: String) -> (r: bool)
        ensures
            r == has_list_key(self.list_keys@, list_id@),
    {
        self.find_list(&list_id).is_some()
    }

    /// Replaces the ownership-lookup host, admin only.
    pub fn set_near_rpc(&mut self, caller: String, rpc_url: String) -> (r: Result<(), Error>)
        ensures
            r == Err::<(), Error>(Error::Unauthorized) <==> caller@ != old(self).admin@,
            r is Err ==> *final(self) == *old(self),
            r is Ok ==> final(self).near_rpc == rpc_url && final(self).admin == old(self).admin
                && final(self).list_keys == old(self).list_keys && final(self).nft_contract == old(
                self,
            ).nft_contract,
    {
        if !(caller == self.admin) {
            return Err(Error::Unauthorized);
        }
        self.near_rpc = rpc_url;
        Ok(())
    }

    /// Replaces the token ledger account, admin only.
    pub fn set_nft_contract(&mut self, caller: String, contract: String) -> (r: Result<(), Error>)
        ensures
            r == Err::<(), Error>(Error::Unauthorized) <==> caller@ != old(self).admin@,
            r is Err ==> *final(self) == *old(self),
            r is Ok ==> final(self).nft_contract == contract && final(self).admin == old(
                self,
            ).admin && final(self).list_keys == old(self).list_keys && final(self).near_rpc == old(
                self,
            ).near_rpc,
    {
        if !(caller == self.admin) {
            return Err(Error::Unauthorized);
        }
        self.nft_contract = contract;
        Ok(())
    }

    /// Hands the admin role to `new_admin`, admin only.
    pub fn transfer_admin(&mut self, caller: String, new_admin: String) -> (r: Result<(), Error>)
        ensures
            r == Err::<(), Error>(Error::Unauthorized) <==> caller@ != old(self).admin@,
            r is Err ==> *final(self) == *old(self),
            r is Ok ==> final(self).admin == new_admin && final(self).list_keys == old(
                self,
            ).list_keys && final(self).near_rpc == old(self).near_rpc && final(self).nft_contract
                == old(self).nft_contract,
    {
        if !(caller == self.admin) {
            return Err(Error::Unauthorized);
        }
        self.admin = new_admin;
        Ok(())
    }

    /// The current admin.
    pub fn get_admin(&self) -> (r: String)
        ensures
            r == self.admin,
    {
        self.admin.clone()
    }

    /// Decrypts content framed as `nonce (12 bytes) || ciphertext`.
    /// Fails `DecryptionFailed` for under-length data or a failed
    /// authentication check.
    pub fn decrypt_aes_gcm(&self, key: &[u8; 32], data: &[u8]) -> (r: Result<Vec<u8>, Error>)
        ensures
            data@.len() < 28 ==> r == Err::<Vec<u8>, Error>(Error::DecryptionFailed),
            data@.len() >= 28 ==> match r {
                Ok(p) => aes256_gcm_plaintext(
                    key@,
                    data@.subrange(0, 12),
                    data@.subrange(12, data@.len() as int),
                ) == Some(p@),
                Err(e) => e == Error::DecryptionFailed && aes256_gcm_plaintext(
                    key@,
                    data@.subrange(0, 12),
                    data@.subrange(12, data@.len() as int),
                ) is None,
            },
    {
        let n = data.len();
        if n < 28 {
            return Err(Error::DecryptionFailed);
        }
        let mut nonce: Vec<u8> = Vec::new();
        let mut i: usize = 0;
        while i < 12
            invariant
                n == data@.len(),
                n >= 28,
                0 <= i <= 12,
                nonce@ == data@.subrange(0, i as int),
            decreases 12 - i,
        {
            nonce.push(data[i]);
            proof {
                assert(nonce@ =~= data@.subrange(0, i + 1));
            }
            i += 1;
        }
        let mut ciphertext: Vec<u8> = Vec::new();
        let mut k: usize = 12;
        while k < n
            invariant
                n == data@.len(),
                n >= 28,
                12 <= k <= n,
                ciphertext@ == data@.subrange(12, k as int),
            decreases n - k,
        {
            ciphertext.push(data[k]);
            proof {
                assert(ciphertext@ =~= data@.subrange(12, k + 1));
            }
            k += 1;
        }
        match aes256_gcm_open(key, nonce.as_slice(), ciphertext.as_slice()) {
            Some(p) => Ok(p),
            None => Err(Error::DecryptionFailed),
        }
    }

    /// The signature format check made before any lookup: the blob must
    /// be exactly 64 bytes.
    pub fn check_signature_format(signature: &Vec<u8>) -> (r: Result<(), Error>)
        ensures
            r is Ok <==> signature@.len() == 64,
            r is Err <==> r == Err::<(), Error>(Error::InvalidSignature),
    {
        if signature.len() != 64 {
            return Err(Error::InvalidSignature);
        }
        Ok(())
    }

    /// The decrypt decision once the ownership lookup has answered:
    /// refuse without access, refuse an unknown list, else decrypt with
    /// the stored key.
    pub fn decrypt_for_verified(
        &self,
        list_id: String,
        has_access: bool,
        encrypted_content: &Vec<u8>,
    ) -> (r: Result<Vec<u8>, Error>)
        requires
            self.wf(),
        ensures
            !has_access ==> r == Err::<Vec<u8>, Error>(Error::NoAccess),
            has_access && !has_list_key(self.list_keys@, list_id@) ==> r == Err::<Vec<u8>, Error>(
                Error::ListNotFound,
            ),
            has_access && has_list_key(self.list_keys@, list_id@) && encrypted_content@.len() < 28
                ==> r == Err::<Vec<u8>, Error>(Error::DecryptionFailed),
            has_access && has_list_key(self.list_keys@, list_id@) && encrypted_content@.len() >= 28
                ==> match r {
                Ok(p) => aes256_gcm_plaintext(
                    self.spec_key_of(list_id@),
                    encrypted_content@.subrange(0, 12),
                    encrypted_content@.subrange(12, encrypted_content@.len() as int),
                ) == Some(p@),
                Err(e) => e == Error::DecryptionFailed && aes256_gcm_plaintext(
                    self.spec_key_of(list_id@),
                    encrypted_content@.subrange(0, 12),
                    encrypted_content@.subrange(12, encrypted_content@.len() as int),
                ) is None,
            },
    {
        if !has_access {
            return Err(Error::NoAccess);
        }
        let j = match self.find_list(&list_id) {
            Some(j) => j,
            None => {
                return Err(Error::ListNotFound);
            },
        };
        proof {
            let w = choose|i: int|
                0 <= i < self.list_keys@.len() && (#[trigger] self.list_keys@[i].list_id@)
                    == list_id@;
            if w != j as int {
                assert(false);
            }
        }
        let key = self.list_keys[j].key;
        self.decrypt_aes_gcm(&key, encrypted_content.as_slice())
    }
}

// ---------------------------------------------------------------------------
// Ownership-lookup response parsing
// ---------------------------------------------------------------------------

/// `needle` occurs contiguously in `haystack`.
pub open spec fn bytes_contain(haystack: Seq<u8>, needle: Seq<u8>) -> bool {
    exists|i: int|
        0 <= i <= haystack.len() - needle.len() && (#[trigger] haystack.subrange(
            i,
            i + needle.len() as int,
        )) == needle
}

/// The bytes of `"result"` in quotes.
pub open spec fn result_marker() -> Seq<u8> {
    seq![34u8, 114u8, 101u8, 115u8, 117u8, 108u8, 116u8, 34u8]
}

/// The bytes of the base64 encoding of `true`.
pub open spec fn b64_true_marker() -> Seq<u8> {
    seq![100u8, 72u8, 74u8, 49u8, 90u8, 81u8]
}

/// The bytes of `true`.
pub open spec fn true_marker() -> Seq<u8> {
    seq![116u8, 114u8, 117u8, 101u8]
}

/// Whether `needle` occurs in `haystack`, by direct search.
pub fn bytes_contain_exec(haystack: &Vec<u8>, needle: &Vec<u8>) -> (r: bool)
    ensures
        r == bytes_contain(haystack@, needle@),
{
    let h = haystack.len();
    let n = needle.len();
    if n > h {
        proof {
            assert(!bytes_contain(haystack@, needle@));
        }
        return false;
    }
    if n == 0 {
        proof {
            assert(haystack@.subrange(0, 0 + needle@.len() as int) =~= needle@);
        }
        return true;
    }
    let mut i: usize = 0;
    while i <= h - n
        invariant
            h == haystack@.len(),
            n == needle@.len(),
            1 <= n <= h,
            0 <= i <= h - n + 1,
            forall|s: int|
                0 <= s < i ==> (#[trigger] haystack@.subrange(s, s + n as int)) != needle@,
        decreases h - n + 1 - i,
    {
        let mut j: usize = 0;
        let mut matches = true;
        proof {
            assert(haystack@.subrange(i as int, i as int) =~= needle@.subrange(0, 0));
        }
        while j < n
            invariant
                h == haystack@.len(),
                n == needle@.len(),
                n <= h,
                0 <= i <= h - n,
                0 <= j <= n,
                matches == (haystack@.subrange(i as int, i as int + j as int) == needle@.subrange(
                    0,
                    j as int,
                )),
            decreases n - j,
        {
            let ghost pre_eq = haystack@.subrange(i as int, i as int + j as int) == needle@.subrange(
                0,
                j as int,
            );
            if haystack[i + j] != needle[j] {
                matches = false;
                proof {
                    if haystack@.subrange(i as int, i as int + j + 1) == needle@.subrange(0, j + 1) {
                        assert(haystack@.subrange(i as int, i as int + j + 1)[j as int]
                            == needle@.subrange(0, j + 1)[j as int]);
                        assert(false);
                    }
                }
            } else {
                proof {
                    if pre_eq {
                        assert(haystack@.subrange(i as int, i as int + j + 1) =~= needle@.subrange(
                            0,
                            j + 1,
                        ));
                    } else {
                        if haystack@.subrange(i as int, i as int + j + 1) == needle@.subrange(
                            0,
                            j + 1,
                        ) {
                            assert(haystack@.subrange(i as int, i as int + j as int) =~= needle@
                                .subrange(0, j as int)) by {
                                assert forall|q: int| 0 <= q < j implies haystack@.subrange(
                                    i as int,
                                    i as int + j as int,
                                )[q] == needle@.subrange(0, j as int)[q] by {
                                    assert(haystack@.subrange(i as int, i as int + j + 1)[q]
                                        == needle@.subrange(0, j + 1)[q]);
                                }
                            }
                            assert(false);
                        }
                    }
                }
            }
            j += 1;
        }
        if matches {
            proof {
                assert(needle@.subrange(0, n as int) =~= needle@);
                assert(haystack@.subrange(i as int, i as int + n as int) == needle@);
            }
            return true;
        }
        proof {
            assert(needle@.subrange(0, n as int) =~= needle@);
        }
        i += 1;
    }
    proof {
        assert(!bytes_contain(haystack@, needle@));
    }
    false
}

/// Interprets the ownership lookup's answer: a non-200 status is a
/// transport failure; a body without a result field is malformed; an
/// answer grants access exactly when it carries `true`, plainly or
/// base64-encoded.
pub fn parse_access_response(status_code: u16, body: &Vec<u8>) -> (r: Result<bool, Error>)
    ensures
        status_code != 200 ==> r == Err::<bool, Error>(Error::HttpError),
        status_code == 200 && !bytes_contain(body@, result_marker()) ==> r == Err::<bool, Error>(
            Error::InvalidNearResponse,
        ),
        status_code == 200 && bytes_contain(body@, result_marker()) ==> r == Ok::<bool, Error>(
            bytes_contain(body@, b64_true_marker()) || bytes_contain(body@, true_marker()),
        ),
{
    if status_code != 200 {
        return Err(Error::HttpError);
    }
    let mut marker: Vec<u8> = Vec::new();
    marker.push(34);
    marker.push(114);
    marker.push(101);
    marker.push(115);
    marker.push(117);
    marker.push(108);
    marker.push(116);
    marker.push(34);
    proof {
        assert(marker@ =~= result_marker());
    }
    if !bytes_contain_exec(body, &marker) {
        return Err(Error::InvalidNearResponse);
    }
    let mut b64: Vec<u8> = Vec::new();
    b64.push(100);
    b64.push(72);
    b64.push(74);
    b64.push(49);
    b64.push(90);
    b64.push(81);
    proof {
        assert(b64@ =~= b64_true_marker());
    }
    if bytes_contain_exec(body, &b64) {
        return Ok(true);
    }
    let mut plain: Vec<u8> = Vec::new();
    plain.push(116);
    plain.push(114);
    plain.push(117);
    plain.push(101);
    proof {
        assert(plain@ =~= true_marker());
    }
    Ok(bytes_contain_exec(body, &plain))
}

} // verus!
