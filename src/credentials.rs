//! The credential file and the identities it yields: a JSON list of
//! base58-encoded private keys, each decoded to the address it controls.
use vstd::prelude::*;
use crate::text::string_views;

verus! {

/// What `serde_json` reads from `text` as a list of strings, if it is one.
pub uninterp spec fn json_string_list_of(text: Seq<char>) -> Option<Seq<Seq<char>>>;

/// The bytes that `bs58` decodes from `text`, if it is valid base58.
pub uninterp spec fn base58_decode_of(text: Seq<char>) -> Option<Seq<u8>>;

/// The base58 address of the public key of the keypair that `bytes` hold,
/// if they hold a valid keypair.
pub uninterp spec fn keypair_address_of(bytes: Seq<u8>) -> Option<Seq<char>>;

/// Relies on `serde_json::from_str::<Vec<String>>`: whether the text is a
/// JSON array of strings, and which strings, depends on the text alone.
#[verifier::external_body]
fn parse_json_string_list(text: &str) -> (r: Option<Vec<String>>)
    ensures
        match r {
            Some(v) => json_string_list_of(text@) == Some(string_views(v@)),
            None => json_string_list_of(text@) is None,
        },
{
    serde_json::from_str::<Vec<String>>(text).ok()
}

/// Relies on `bs58::decode(..).into_vec()`: the decoded bytes depend on the
/// text alone.
#[verifier::external_body]
fn base58_decode(text: &str) -> (r: Option<Vec<u8>>)
    ensures
        match r {
            Some(b) => base58_decode_of(text@) == Some(b@),
            None => base58_decode_of(text@) is None,
        },
{
    bs58::decode(text).into_vec().ok()
}

/// Relies on `Keypair::try_from(&[u8])` of `solana_sdk`, and on the base58
/// text of the public key of the keypair it builds: both depend on the bytes
/// alone.
#[verifier::external_body]
fn keypair_address(bytes: &Vec<u8>) -> (r: Option<String>)
    ensures
        match r {
            Some(a) => keypair_address_of(bytes@) == Some(a@),
            None => keypair_address_of(bytes@) is None,
        },
{
    match solana_sdk::signature::Keypair::try_from(bytes.as_slice()) {
        Ok(k) => Some(solana_sdk::signer::Signer::pubkey(&k).to_string()),
        Err(_) => None,
    }
}

/// Why a credential file could not be used.
#[derive(Clone, Copy, PartialEq, Eq, Debug)]
pub enum CredentialError {
    /// The text is not a JSON array of strings.
    Malformed,
}

/// Reads the private keys of a credential file. An empty list is no error:
/// the caller treats it as nothing to do.
pub fn load_credentials(text: &str) -> (r: Result<Vec<String>, CredentialError>)
    ensures
        match r {
            Ok(keys) => json_string_list_of(text@) == Some(string_views(keys@)),
            Err(e) => e == CredentialError::Malformed && json_string_list_of(text@) is None,
        },
{
    match parse_json_string_list(text) {
        Some(keys) => Ok(keys),
        None => Err(CredentialError::Malformed),
    }
}

/// The address that a private key controls, if the key decodes.
pub open spec fn identity_address_of(key: Seq<char>) -> Option<Seq<char>> {
    match base58_decode_of(key) {
        Some(bytes) => keypair_address_of(bytes),
        None => None,
    }
}

/// A mining identity: a private key and the address it controls.
pub struct Identity {
    pub private_key: String,
    pub address: String,
}

/// Decodes one private key into the identity it stands for.
pub fn decode_identity(key: &str) -> (r: Option<Identity>)
    ensures
        match r {
            Some(id) => identity_address_of(key@) == Some(id.address@) && id.private_key@ == key@,
            None => identity_address_of(key@) is None,
        },
{
    match base58_decode(key) {
        Some(bytes) => match keypair_address(&bytes) {
            Some(address) => Some(Identity { private_key: String::from_str(key), address }),
            None => None,
        },
        None => None,
    }
}

/// The addresses of the keys that decode, in input order.
pub open spec fn decodable_addresses(keys: Seq<Seq<char>>) -> Seq<Seq<char>>
    decreases keys.len(),
{
    if keys.len() == 0 {
        Seq::empty()
    } else {
        let rest = decodable_addresses(keys.drop_last());
        match identity_address_of(keys.last()) {
            Some(a) => rest.push(a),
            None => rest,
        }
    }
}

/// The keys that do not decode, in input order.
pub open spec fn undecodable_keys(keys: Seq<Seq<char>>) -> Seq<Seq<char>>
    decreases keys.len(),
{
    if keys.len() == 0 {
        Seq::empty()
    } else {
        let rest = undecodable_keys(keys.drop_last());
        if identity_address_of(keys.last()) is None {
            rest.push(keys.last())
        } else {
            rest
        }
    }
}

/// A credential batch split into its identities and the keys that do not
/// decode (which the caller warns about and skips).
pub struct DecodedBatch {
    pub identities: Vec<Identity>,
    pub rejected: Vec<String>,
}

pub open spec fn identity_addresses(ids: Seq<Identity>) -> Seq<Seq<char>> {
    ids.map_values(|id: Identity| id.address@)
}

/// Decodes every key of a batch, keeping input order.
pub fn decode_batch(keys: &Vec<String>) -> (r: DecodedBatch)
    ensures
        identity_addresses(r.identities@) == decodable_addresses(string_views(keys@)),
        string_views(r.rejected@) == undecodable_keys(string_views(keys@)),
{
    let mut identities: Vec<Identity> = Vec::new();
    let mut rejected: Vec<String> = Vec::new();
    let mut i: usize = 0;
    while i < keys.len()
        invariant
            i <= keys@.len(),
            identity_addresses(identities@) == decodable_addresses(
                string_views(keys@).subrange(0, i as int),
            ),
            string_views(rejected@) == undecodable_keys(string_views(keys@).subrange(0, i as int)),
        decreases keys@.len() - i,
    {
        let ghost prefix = string_views(keys@).subrange(0, i as int + 1);
        assert(prefix.drop_last() =~= string_views(keys@).subrange(0, i as int));
        assert(prefix.last() == keys@[i as int]@);
        let ghost ids_before = identities@;
        let ghost rej_before = rejected@;
        match decode_identity(keys[i].as_str()) {
            Some(id) => {
                identities.push(id);
                assert(identity_addresses(identities@) =~= identity_addresses(ids_before).push(
                    identities@.last().address@,
                ));
            },
            None => {
                rejected.push(keys[i].clone());
                assert(string_views(rejected@) =~= string_views(rej_before).push(keys@[i as int]@));
            },
        }
        i = i + 1;
    }
    assert(string_views(keys@).subrange(0, i as int) =~= string_views(keys@));
    DecodedBatch { identities, rejected }
}

} // verus!
