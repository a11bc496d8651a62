//! What the command line of the tooling decides: verbosity, defaults, the shape
//! of arguments and of what the ledger's command-line client prints.

use vstd::prelude::*;
use vstd::string::*;
use crate::bytes::{bytes_eq, copy_range};
use crate::light_client::TrustThreshold;

verus! {

/// How much is logged.
#[derive(Clone, Copy, Debug, PartialEq, Eq, Structural)]
pub enum LevelFilter {
    Info,
    Debug,
    Trace,
}

/// How often the verbosity flag was given.
#[derive(Clone, Copy, Debug, PartialEq, Eq, Structural)]
pub struct Verbosity {
    pub verbose: u8,
}

impl Verbosity {
    /// The log level of a verbosity: info by default, debug for one flag, trace
    /// for more.
    pub fn to_level_filter(&self) -> (r: LevelFilter)
        ensures
            r == (if self.verbose == 0 {
                LevelFilter::Info
            } else if self.verbose == 1 {
                LevelFilter::Debug
            } else {
                LevelFilter::Trace
            }),
    {
        if self.verbose == 0 {
            LevelFilter::Info
        } else if self.verbose == 1 {
            LevelFilter::Debug
        } else {
            LevelFilter::Trace
        }
    }
}

/// Whether a flag is unset.
pub fn is_false(b: &bool) -> (r: bool)
    ensures
        r == !*b,
{
    !(*b)
}

/// The default name of the key that signs transactions.
pub fn default_admin() -> (r: String)
    ensures
        r@ == "admin"@,
{
    "admin".to_owned()
}

/// The default port of the enclave.
pub fn default_port() -> (r: u16)
    ensures
        r == 11090,
{
    11090
}

/// The default chain id.
pub fn default_chain_id() -> (r: String)
    ensures
        r@ == "testing"@,
{
    "testing".to_owned()
}

/// The node's address: the one that the environment names, else the local node.
pub fn default_node_url(from_environment: Option<String>) -> (r: String)
    ensures
        r@ == (match from_environment {
            Some(url) => url@,
            None => "http://127.0.0.1:26657"@,
        }),
{
    match from_environment {
        Some(url) => url,
        None => "http://127.0.0.1:26657".to_owned(),
    }
}

/// The enclave's address: the one that the environment names, else the local
/// host.
pub fn default_rpc_addr(from_environment: Option<String>) -> (r: String)
    ensures
        r@ == (match from_environment {
            Some(url) => url@,
            None => "http://127.0.0.1"@,
        }),
{
    match from_environment {
        Some(url) => url,
        None => "http://127.0.0.1".to_owned(),
    }
}

/// Whether the mock mode is on by default: it is, unless the environment's flag is
/// unset or the single character zero.
pub fn default_mocksgx_flag(from_environment: Option<&str>) -> (r: bool)
    ensures
        r == (match from_environment {
            Some(flag) => flag.spec_bytes() != seq![48u8],
            None => false,
        }),
{
    match from_environment {
        Some(flag) => {
            let b = flag.as_bytes();
            !(b.len() == 1 && b[0] == 48)
        },
        None => false,
    }
}

/// Where the ledger's node keeps the lock of its contract store.
pub fn get_lock_file_path() -> (r: String)
    ensures
        r@ == "/tmp/neutrond_wasm/wasm/wasm/exclusive.lock"@,
{
    "/tmp/neutrond_wasm/wasm/wasm/exclusive.lock".to_owned()
}

/// The arguments of `init`.
pub struct InitArgs {
    pub name: String,
}

/// The arguments of `contract build`.
pub struct ContractBuildArgs {
    pub contract_manifest: String,
}

/// The arguments of `enclave build`.
#[derive(Clone, Copy, Debug, PartialEq, Eq, Structural)]
pub struct EnclaveBuildArgs {
    pub release: bool,
}

/// A request to create an application.
pub struct InitRequest {
    pub name: String,
}

/// Why an application cannot be created under a name.
#[derive(Clone, Copy, Debug, PartialEq, Eq, Structural)]
pub enum InitError {
    /// The name has an extension: it names a file.
    NotADirectory,
    /// There is something under the name already.
    AlreadyExists,
}

/// The slash.
pub const SLASH: u8 = 47;

/// The dot.
pub const DOT: u8 = 46;

/// Where the last component of a path starts: after its last slash.
pub open spec fn file_name_start(path: Seq<u8>) -> int
    decreases path.len(),
{
    if path.len() == 0 {
        0
    } else if path.last() == SLASH {
        path.len() as int
    } else {
        file_name_start(path.drop_last())
    }
}

/// Whether a file name has an extension: a dot that is not its first character,
/// the name not being two dots.
pub open spec fn name_has_extension(name: Seq<u8>) -> bool {
    name != seq![DOT, DOT] && exists|i: int| 1 <= i < name.len() && #[trigger] name[i] == DOT
}

/// Whether the last component of a path has an extension.
pub open spec fn has_extension(path: Seq<u8>) -> bool {
    name_has_extension(path.skip(file_name_start(path)))
}

fn last_component_start(path: &[u8]) -> (r: usize)
    ensures
        r == file_name_start(path@),
        r <= path@.len(),
{
    let mut i: usize = path.len();
    proof {
        assert(path@.subrange(0, i as int) =~= path@);
    }
    while i > 0 && path[i - 1] != SLASH
        invariant
            i <= path@.len(),
            file_name_start(path@) == file_name_start(path@.subrange(0, i as int)),
        decreases i,
    {
        proof {
            let p = path@.subrange(0, i as int);
            assert(p.last() == path@[i - 1]);
            assert(p.drop_last() =~= path@.subrange(0, i - 1));
        }
        i -= 1;
    }
    proof {
        let p = path@.subrange(0, i as int);
        if i > 0 {
            assert(p.last() == path@[i - 1]);
        }
    }
    i
}

/// Whether the last component of a path has an extension.
pub fn check_has_extension(path: &[u8]) -> (r: bool)
    ensures
        r == has_extension(path@),
{
    let start = last_component_start(path);
    let name = copy_range(path, start, path.len());
    proof {
        assert(name@ =~= path@.skip(start as int));
    }
    if name.len() == 2 && name[0] == DOT && name[1] == DOT {
        proof {
            assert(name@ =~= seq![DOT, DOT]);
        }
        return false;
    }
    let mut i: usize = 1;
    while i < name.len()
        invariant
            1 <= i,
            name@ != seq![DOT, DOT],
            name@ == path@.skip(file_name_start(path@)),
            forall|j: int| 1 <= j < i && j < name@.len() ==> name@[j] != DOT,
        decreases name.len() - i,
    {
        if name[i] == DOT {
            proof {
                assert(name@[i as int] == DOT);
            }
            return true;
        }
        i += 1;
    }
    false
}

impl InitRequest {
    /// Checks the name of an application to create. `exists` says whether there
    /// is something under the name already.
    pub fn check(&self, exists: bool) -> (r: Result<(), InitError>)
        ensures
            r == (if has_extension(vstd::utf8::encode_utf8(self.name@)) {
                Err::<(), InitError>(InitError::NotADirectory)
            } else if exists {
                Err::<(), InitError>(InitError::AlreadyExists)
            } else {
                Ok::<(), InitError>(())
            }),
    {
        if check_has_extension(self.name.as_str().as_bytes()) {
            Err(InitError::NotADirectory)
        } else if exists {
            Err(InitError::AlreadyExists)
        } else {
            Ok(())
        }
    }
}

/// What a command answers.
pub enum Response {
    Init,
    Handshake { pub_key: String },
    ContractBuild,
    ContractDeploy { code_id: u64, contract_addr: String },
    EnclaveBuild,
    EnclaveStart,
    Dev,
}

/// A key and a value of an event in a transaction's log.
pub struct Attribute {
    pub key: String,
    pub value: String,
}

/// An event in a transaction's log.
pub struct Event {
    pub attributes: Vec<Attribute>,
    pub r_type: String,
}

/// The log of one message of a transaction.
pub struct Log {
    pub events: Vec<Event>,
    pub msg_index: u32,
}

/// The value of the attribute at `attribute` of the event at `event` in the first
/// log, if the log has one there.
pub open spec fn log_value_spec(logs: Seq<Log>, event: int, attribute: int) -> Option<Seq<char>> {
    if logs.len() > 0 && 0 <= event < logs[0].events@.len() && 0 <= attribute
        < logs[0].events@[event].attributes@.len() {
        Some(logs[0].events@[event].attributes@[attribute].value@)
    } else {
        None
    }
}

/// The value of an attribute of an event in the first log of a transaction.
pub fn log_value(logs: &Vec<Log>, event: usize, attribute: usize) -> (r: Option<&String>)
    ensures
        r.is_some() == log_value_spec(logs@, event as int, attribute as int).is_some(),
        r matches Some(v) ==> v@ == log_value_spec(logs@, event as int, attribute as int).unwrap(),
{
    if logs.len() == 0 {
        return None;
    }
    let events = &logs[0].events;
    if event >= events.len() {
        return None;
    }
    let attributes = &events[event].attributes;
    if attribute >= attributes.len() {
        return None;
    }
    Some(&attributes[attribute].value)
}

/// The address of the contract that an instantiation's log reports.
pub fn contract_addr_of(logs: &Vec<Log>) -> (r: Option<&String>)
    ensures
        r.is_some() == log_value_spec(logs@, 1, 0).is_some(),
        r matches Some(v) ==> v@ == log_value_spec(logs@, 1, 0).unwrap(),
{
    log_value(logs, 1, 0)
}

/// The value of the first attribute with the key `key` in the first event of the
/// type `kind`.
pub open spec fn event_attribute_spec(events: Seq<Event>, kind: Seq<char>, key: Seq<char>) -> Option<
    Seq<char>,
>
    decreases events.len(),
{
    if events.len() == 0 {
        None
    } else if events[0].r_type@ == kind {
        attribute_value_spec(events[0].attributes@, key)
    } else {
        event_attribute_spec(events.drop_first(), kind, key)
    }
}

/// The value of the first attribute with the key `key`.
pub open spec fn attribute_value_spec(attributes: Seq<Attribute>, key: Seq<char>) -> Option<
    Seq<char>,
>
    decreases attributes.len(),
{
    if attributes.len() == 0 {
        None
    } else if attributes[0].key@ == key {
        Some(attributes[0].value@)
    } else {
        attribute_value_spec(attributes.drop_first(), key)
    }
}

fn attribute_value<'a>(attributes: &'a Vec<Attribute>, key: &str) -> (r: Option<&'a String>)
    ensures
        r.is_some() == attribute_value_spec(attributes@, key@).is_some(),
        r matches Some(v) ==> v@ == attribute_value_spec(attributes@, key@).unwrap(),
{
    let mut i: usize = 0;
    proof {
        assert(attributes@.skip(0) =~= attributes@);
    }
    while i < attributes.len()
        invariant
            i <= attributes.len(),
            attribute_value_spec(attributes@, key@) == attribute_value_spec(
                attributes@.skip(i as int),
                key@,
            ),
        decreases attributes.len() - i,
    {
        proof {
            let rest = attributes@.skip(i as int);
            assert(rest[0] == attributes@[i as int]);
            assert(rest.drop_first() =~= attributes@.skip(i + 1));
        }
        if same_text(attributes[i].key.as_str(), key) {
            return Some(&attributes[i].value);
        }
        i += 1;
    }
    None
}

fn same_text(a: &str, b: &str) -> (r: bool)
    ensures
        r == (a@ == b@),
{
    let r = bytes_eq(a.as_bytes(), b.as_bytes());
    proof {
        if a.spec_bytes() == b.spec_bytes() {
            vstd::utf8::encode_utf8_decode_utf8(a@);
            vstd::utf8::encode_utf8_decode_utf8(b@);
        }
    }
    r
}

/// The value of an attribute of a transaction's events: that of the first
/// attribute with the key `key` in the first event of the type `kind`.
pub fn event_attribute<'a>(events: &'a Vec<Event>, kind: &str, key: &str) -> (r: Option<
    &'a String,
>)
    ensures
        r.is_some() == event_attribute_spec(events@, kind@, key@).is_some(),
        r matches Some(v) ==> v@ == event_attribute_spec(events@, kind@, key@).unwrap(),
{
    let mut i: usize = 0;
    proof {
        assert(events@.skip(0) =~= events@);
    }
    while i < events.len()
        invariant
            i <= events.len(),
            event_attribute_spec(events@, kind@, key@) == event_attribute_spec(
                events@.skip(i as int),
                kind@,
                key@,
            ),
        decreases events.len() - i,
    {
        proof {
            let rest = events@.skip(i as int);
            assert(rest[0] == events@[i as int]);
            assert(rest.drop_first() =~= events@.skip(i + 1));
        }
        if same_text(events[i].r_type.as_str(), kind) {
            return attribute_value(&events[i].attributes, key);
        }
        i += 1;
    }
    None
}

/// The public key that the transaction of a published session key reports.
pub fn find_pub_key(events: &Vec<Event>) -> (r: Option<&String>)
    ensures
        r.is_some() == event_attribute_spec(events@, "wasm"@, "pub_key"@).is_some(),
        r matches Some(v) ==> v@ == event_attribute_spec(events@, "wasm"@, "pub_key"@).unwrap(),
{
    event_attribute(events, "wasm", "pub_key")
}

/// What is remembered of a deployed contract: the id of its code on the ledger
/// and the hash of its binary.
#[derive(Clone, Copy, Debug, PartialEq, Eq, Structural)]
pub struct DeployedContract {
    pub code_id: u64,
    pub contract_hash: u64,
}

/// Whether a contract's binary is another than the one that was deployed: it is
/// where nothing was deployed, or the hashes differ.
pub fn contract_has_changed(current_hash: u64, cached: Option<DeployedContract>) -> (r: bool)
    ensures
        r == (match cached {
            None => true,
            Some(c) => c.contract_hash != current_hash,
        }),
{
    match cached {
        None => true,
        Some(c) => c.contract_hash != current_hash,
    }
}

/// The XXH3 64-bit hash of a byte string.
pub uninterp spec fn xxh3_spec(data: Seq<u8>) -> u64;

/// Calls `xxhash_rust::xxh3::xxh3_64`. Trusted: the result depends on `data`
/// alone.
#[verifier::external_body]
fn xxh3(data: &[u8]) -> (r: u64)
    ensures
        r == xxh3_spec(data@),
{
    xxhash_rust::xxh3::xxh3_64(data)
}

/// The hash by which a contract's binary is recognised.
pub fn gen_hash(contents: &[u8]) -> (r: u64)
    ensures
        r == xxh3_spec(contents@),
{
    xxh3(contents)
}

/// The place of the first slash of `text`, or its length where there is none.
pub open spec fn slash_at(text: Seq<u8>) -> int
    decreases text.len(),
{
    if text.len() == 0 {
        0
    } else if text[0] == SLASH {
        0
    } else {
        1 + slash_at(text.drop_first())
    }
}

/// A string without the plus sign that it may begin with.
pub open spec fn without_plus(text: Seq<u8>) -> Seq<u8> {
    if text.len() > 0 && text[0] == 43 {
        text.drop_first()
    } else {
        text
    }
}

/// Whether a string is made of digits, and of at least one.
pub open spec fn is_digits(text: Seq<u8>) -> bool {
    text.len() > 0 && forall|i: int| 0 <= i < text.len() ==> crate::decimal::is_digit(
        #[trigger] text[i],
    )
}

/// The number that a string stands for as a count: an optional plus sign, then
/// digits, the number fitting 64 bits.
pub open spec fn count_spec(text: Seq<u8>) -> Option<u64> {
    let digits = without_plus(text);
    if is_digits(digits) && crate::decimal::digits_value(digits) <= u64::MAX {
        Some(crate::decimal::digits_value(digits) as u64)
    } else {
        None
    }
}

/// What a trust threshold argument stands for: `X/Y` with counts `X` and `Y` that
/// make a fraction from one third up to one.
pub open spec fn trust_threshold_spec(text: Seq<u8>) -> Option<TrustThreshold> {
    let at = slash_at(text);
    if at >= text.len() {
        None
    } else {
        match (count_spec(text.subrange(0, at)), count_spec(text.subrange(at + 1, text.len() as int))) {
            (Some(n), Some(d)) => if TrustThreshold::is_valid(n, d) {
                Some(TrustThreshold { numerator: n, denominator: d })
            } else {
                None
            },
            _ => None,
        }
    }
}

fn find_slash(text: &[u8]) -> (r: usize)
    ensures
        r == slash_at(text@),
        r <= text@.len(),
{
    let mut i: usize = 0;
    proof {
        assert(text@.skip(0) =~= text@);
    }
    while i < text.len() && text[i] != SLASH
        invariant
            i <= text@.len(),
            slash_at(text@) == i + slash_at(text@.skip(i as int)),
        decreases text@.len() - i,
    {
        proof {
            let rest = text@.skip(i as int);
            assert(rest[0] == text@[i as int]);
            assert(rest.drop_first() =~= text@.skip(i + 1));
        }
        i += 1;
    }
    proof {
        let rest = text@.skip(i as int);
        if i < text@.len() {
            assert(rest[0] == text@[i as int]);
        }
    }
    i
}

fn parse_count(text: &[u8]) -> (r: Option<u64>)
    ensures
        r == count_spec(text@),
{
    let start: usize = if text.len() > 0 && text[0] == 43 {
        1
    } else {
        0
    };
    let digits = copy_range(text, start, text.len());
    proof {
        if start == 1 {
            assert(digits@ =~= text@.drop_first());
        } else {
            assert(digits@ =~= text@);
        }
    }
    if digits.len() == 0 {
        return None;
    }
    let mut acc: u64 = 0;
    let mut i: usize = 0;
    proof {
        assert(digits@.subrange(0, 0) =~= Seq::<u8>::empty());
    }
    while i < digits.len()
        invariant
            i <= digits.len(),
            digits@.len() > 0,
            digits@ == without_plus(text@),
            forall|j: int| 0 <= j < i ==> crate::decimal::is_digit(#[trigger] digits@[j]),
            acc == crate::decimal::digits_value(digits@.subrange(0, i as int)),
        decreases digits.len() - i,
    {
        let c: u8 = digits[i];
        if c < 48 || c > 57 {
            proof {
                assert(!crate::decimal::is_digit(digits@[i as int]));
            }
            return None;
        }
        let d: u64 = (c - 48) as u64;
        proof {
            let p = digits@.subrange(0, i + 1);
            assert(p.drop_last() =~= digits@.subrange(0, i as int));
            assert(p.last() == c);
            lemma_prefix_value(digits@, i + 1);
        }
        let next = match acc.checked_mul(10) {
            Some(m) => m.checked_add(d),
            None => None,
        };
        match next {
            Some(v) => {
                acc = v;
            },
            None => {
                return None;
            },
        }
        i += 1;
    }
    proof {
        assert(digits@.subrange(0, i as int) =~= digits@);
    }
    Some(acc)
}

/// A prefix of a digit string stands for no more than the whole string, if the
/// string is all digits.
proof fn lemma_prefix_value(s: Seq<u8>, k: int)
    requires
        0 <= k <= s.len(),
    ensures
        is_digits(s) ==> crate::decimal::digits_value(s.subrange(0, k))
            <= crate::decimal::digits_value(s),
    decreases s.len() - k,
{
    if k == s.len() {
        assert(s.subrange(0, k) =~= s);
    } else {
        let p = s.subrange(0, k + 1);
        assert(p.drop_last() =~= s.subrange(0, k));
        assert(p.last() == s[k]);
        lemma_prefix_value(s, k + 1);
    }
}

/// Reads a trust threshold argument of the form `X/Y`.
pub fn parse_trust_threshold(s: &str) -> (r: Option<TrustThreshold>)
    ensures
        r == trust_threshold_spec(s.spec_bytes()),
{
    let text = s.as_bytes();
    let at = find_slash(text);
    if at >= text.len() {
        return None;
    }
    let left = copy_range(text, 0, at);
    let right = copy_range(text, at + 1, text.len());
    match (parse_count(left.as_slice()), parse_count(right.as_slice())) {
        (Some(n), Some(d)) => TrustThreshold::new(n, d),
        _ => None,
    }
}

} // verus!
