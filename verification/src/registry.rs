//! The registry: a file per project root in which a sidecar says where it can be reached.

use crate::number;
use crate::text;
use vstd::prelude::*;

verus! {

/// What a sidecar records about itself.
#[derive(Debug)]
pub struct Registry {
    pub root: String,
    pub pid: u32,
    pub http_url: String,
    pub mcp_url: String,
    pub fffq_url: String,
    pub started_at_ms: u128,
}

/// What a [`Registry`] holds.
#[verifier::ext_equal]
pub struct RegistryView {
    pub root: Seq<char>,
    pub pid: u32,
    pub http_url: Seq<char>,
    pub mcp_url: Seq<char>,
    pub fffq_url: Seq<char>,
    pub started_at_ms: u128,
}

impl View for Registry {
    type V = RegistryView;

    open spec fn view(&self) -> RegistryView {
        RegistryView {
            root: self.root@,
            pid: self.pid,
            http_url: self.http_url@,
            mcp_url: self.mcp_url@,
            fffq_url: self.fffq_url@,
            started_at_ms: self.started_at_ms,
        }
    }
}

/// The BLAKE3 hash of `data`.
pub uninterp spec fn blake3_digest(data: Seq<u8>) -> Seq<u8>;

/// `blake3::hash`: the 32 bytes of the hash are a function of the data. Which function is not said.
#[verifier::external_body]
fn blake3_hash(data: &[u8]) -> (r: [u8; 32])
    ensures
        r@ == blake3_digest(data@),
{
    *blake3::hash(data).as_bytes()
}

/// `bytes` in lower-case hexadecimal, two digits for each, the upper half first.
pub open spec fn lower_hex(bytes: Seq<u8>) -> Seq<char> {
    Seq::new(
        2 * bytes.len(),
        |i: int|
            if i % 2 == 0 {
                number::digit_char((bytes[i / 2] / 16) as nat)
            } else {
                number::digit_char((bytes[i / 2] % 16) as nat)
            },
    )
}

/// `blake3::Hash::to_hex`, the hash in lower-case hexadecimal.
#[verifier::external_body]
fn hash_hex(bytes: [u8; 32]) -> (r: String)
    ensures
        r@ == lower_hex(bytes@),
{
    blake3::Hash::from_bytes(bytes).to_hex().to_string()
}

/// The name under which a root with this hash is registered: its first 16 hexadecimal digits.
pub open spec fn hash_name(digest: Seq<u8>) -> Seq<char> {
    lower_hex(digest).take(16)
}

/// The name under which a root is registered.
pub open spec fn root_hash(root: Seq<char>) -> Seq<char> {
    hash_name(blake3_digest(vstd::utf8::encode_utf8(root)))
}

/// The name under which a root with this hash is registered: always 16 lower-case hexadecimal
/// digits.
pub fn name_of_hash(digest: [u8; 32]) -> (r: String)
    ensures
        r@ == hash_name(digest@),
        r@.len() == 16,
        forall|i: int|
            0 <= i < 16 ==> '0' <= #[trigger] r@[i] <= '9' || 'a' <= r@[i] <= 'f',
{
    let hex = text::to_chars(hash_hex(digest).as_str());
    assert(hex@.take(16) == hex@.subrange(0, 16));
    text::to_text(text::cut(hex.as_slice(), 0, 16))
}

/// The name under which a root is registered: always 16 lower-case hexadecimal digits.
pub fn sidecar_hash(root: &str) -> (r: String)
    ensures
        r@ == root_hash(root@),
        r@.len() == 16,
        forall|i: int|
            0 <= i < 16 ==> '0' <= #[trigger] r@[i] <= '9' || 'a' <= r@[i] <= 'f',
{
    name_of_hash(blake3_hash(root.as_bytes()))
}

/// The parts of the path at which a root is registered, each below the one before.
pub open spec fn registry_parts(home: Seq<char>, root: Seq<char>) -> Seq<Seq<char>> {
    seq![home, ".cache"@, "fff"@, "sidecars"@, root_hash(root) + ".json"@]
}

/// The path at which the sidecar of `root` is registered, part by part, below the home directory.
pub fn default_registry_path(home: &str, root: &str) -> (r: Vec<String>)
    ensures
        text::string_texts(r@) == registry_parts(home@, root@),
{
    let mut file = sidecar_hash(root);
    file.append(".json");
    let mut r: Vec<String> = Vec::new();
    r.push(home.to_string());
    r.push(".cache".to_string());
    r.push("fff".to_string());
    r.push("sidecars".to_string());
    r.push(file);
    assert(text::string_texts(r@) == registry_parts(home@, root@));
    r
}

/// The home directory that the client goes by, given the variable `HOME`.
pub open spec fn client_home(home: Option<Seq<char>>) -> Seq<char> {
    match home {
        Some(home) => home,
        None => "/tmp"@,
    }
}

/// The path at which the client looks for the sidecar of `root`, part by part, given the variable
/// `HOME`.
pub fn registry_path(home: Option<String>, root: &str) -> (r: Vec<String>)
    ensures
        text::string_texts(r@) == registry_parts(client_home(text::optional_text(home)), root@),
{
    let home = match home {
        Some(home) => home,
        None => "/tmp".to_string(),
    };
    default_registry_path(home.as_str(), root)
}

/// The home directory that the sidecar goes by, given the variables `HOME` and `USERPROFILE`.
pub open spec fn sidecar_home(
    home: Option<Seq<char>>,
    user_profile: Option<Seq<char>>,
) -> Seq<char> {
    match (home, user_profile) {
        (Some(home), _) => home,
        (None, Some(profile)) => profile,
        (None, None) => "/tmp"@,
    }
}

/// The home directory that the sidecar goes by, given the variables `HOME` and `USERPROFILE`.
pub fn dirs_home(home: Option<String>, user_profile: Option<String>) -> (r: String)
    ensures
        r@ == sidecar_home(text::optional_text(home), text::optional_text(user_profile)),
{
    match home {
        Some(home) => home,
        None => match user_profile {
            Some(profile) => profile,
            None => "/tmp".to_string(),
        },
    }
}

/// The path to which a sidecar writes its registry, part by part: the given one, or the default
/// below the home directory.
pub fn registry_target(path: Option<String>, home: &str, root: &str) -> (r: Vec<String>)
    ensures
        text::string_texts(r@) == match path {
            Some(path) => seq![path@],
            None => registry_parts(home@, root@),
        },
{
    match path {
        Some(path) => {
            let ghost given = path@;
            let mut r: Vec<String> = Vec::new();
            r.push(path);
            assert(text::string_texts(r@) == seq![given]);
            r
        },
        None => default_registry_path(home, root),
    }
}

/// What a sidecar for `root` that listens on `local_addr` records.
pub open spec fn recorded(
    root: Seq<char>,
    pid: u32,
    local_addr: Seq<char>,
    http_path: Seq<char>,
    started_at_ms: u128,
) -> RegistryView {
    let http_url = "http://"@ + local_addr;
    RegistryView {
        root,
        pid,
        http_url,
        mcp_url: http_url + http_path,
        fffq_url: http_url + "/fffq"@,
        started_at_ms,
    }
}

/// Puts together what a sidecar for `root` that listens on `local_addr` records.
pub fn sidecar_registry(
    root: &str,
    pid: u32,
    local_addr: &str,
    http_path: &str,
    started_at_ms: u128,
) -> (r: Registry)
    ensures
        r@ == recorded(root@, pid, local_addr@, http_path@, started_at_ms),
{
    let mut http_url = "http://".to_string();
    http_url.append(local_addr);
    let mut mcp_url = http_url.clone();
    mcp_url.append(http_path);
    let mut fffq_url = http_url.clone();
    fffq_url.append("/fffq");
    Registry { root: root.to_string(), pid, http_url, mcp_url, fffq_url, started_at_ms }
}

/// The milliseconds since the Unix epoch of a time that lies `secs` seconds and `nanos` nanoseconds
/// behind it; a time before the epoch is an error, whose message is passed on.
pub fn _system_time_ms(since_epoch: Result<(u64, u32), String>) -> (r: Result<u128, String>)
    ensures
        match since_epoch {
            Ok((secs, nanos)) => r matches Ok(ms) && ms == secs * 1000 + nanos as int / 1_000_000,
            Err(message) => r == Err::<u128, String>(message),
        },
{
    match since_epoch {
        Ok((secs, nanos)) => Ok(secs as u128 * 1000 + (nanos / 1_000_000) as u128),
        Err(message) => Err(message),
    }
}

} // verus!
