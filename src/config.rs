use vstd::prelude::*;

verus! {

/// Timestamping mode. This is a hint: the operating system or the hardware
/// may not support some modes, and unsupported modes are ignored.
#[derive(Debug, Clone, Copy, PartialEq, Eq, Structural)]
pub enum TimestampMode {
    Software,
    KernelRecv,
    KernelAll,
    Hardware,
}

/// How an interface is asked to timestamp its packets.
#[derive(Debug, Clone, Copy, PartialEq, Eq, Structural)]
pub enum InterfaceTimestampMode {
    Disabled,
    SoftwareRecv,
    SoftwareAll,
    HardwareAll,
}

/// How a socket not bound to an interface is asked to timestamp its packets.
#[derive(Debug, Clone, Copy, PartialEq, Eq, Structural)]
pub enum GeneralTimestampMode {
    Disabled,
    SoftwareRecv,
    SoftwareAll,
}

impl Default for TimestampMode {
    /// Kernel timestamps for both directions.
    fn default() -> (r: TimestampMode)
        ensures
            r == TimestampMode::KernelAll,
    {
        TimestampMode::KernelAll
    }
}

impl TimestampMode {
    /// The mode requested from a network interface.
    pub fn as_interface_mode(self) -> (r: InterfaceTimestampMode)
        ensures
            r == match self {
                TimestampMode::Software => InterfaceTimestampMode::Disabled,
                TimestampMode::KernelRecv => InterfaceTimestampMode::SoftwareRecv,
                TimestampMode::KernelAll => InterfaceTimestampMode::SoftwareAll,
                TimestampMode::Hardware => InterfaceTimestampMode::HardwareAll,
            },
    {
        match self {
            TimestampMode::Software => InterfaceTimestampMode::Disabled,
            TimestampMode::KernelRecv => InterfaceTimestampMode::SoftwareRecv,
            TimestampMode::KernelAll => InterfaceTimestampMode::SoftwareAll,
            TimestampMode::Hardware => InterfaceTimestampMode::HardwareAll,
        }
    }

    /// The mode requested from a socket that is not bound to an interface:
    /// hardware timestamps fall back to kernel ones.
    pub fn as_general_mode(self) -> (r: GeneralTimestampMode)
        ensures
            r == match self {
                TimestampMode::Software => GeneralTimestampMode::Disabled,
                TimestampMode::KernelRecv => GeneralTimestampMode::SoftwareRecv,
                TimestampMode::KernelAll | TimestampMode::Hardware => GeneralTimestampMode::SoftwareAll,
            },
    {
        match self {
            TimestampMode::Software => GeneralTimestampMode::Disabled,
            TimestampMode::KernelRecv => GeneralTimestampMode::SoftwareRecv,
            TimestampMode::KernelAll | TimestampMode::Hardware => GeneralTimestampMode::SoftwareAll,
        }
    }
}

/// Whether log output is colored unless configured otherwise.
pub fn default_ansi_colors() -> (r: bool)
    ensures
        r,
{
    true
}

/// The file mode of the observation socket unless configured otherwise:
/// readable and writable by everyone.
pub fn default_observation_permissions() -> (r: u32)
    ensures
        r == 0o666,
{
    0o666
}

/// Configuration of the keys used for NTS cookies.
#[derive(Debug, Clone, PartialEq, Eq)]
pub struct KeysetConfig {
    /// Number of old keys to keep around
    pub stale_key_count: usize,
    /// How often to rotate keys (seconds between rotations)
    pub key_rotation_interval: usize,
    pub key_storage_path: Option<String>,
}

impl Default for KeysetConfig {
    /// A week of daily keys, kept in memory only.
    fn default() -> (r: KeysetConfig)
        ensures
            r.stale_key_count == 7,
            r.key_rotation_interval == 86400,
            r.key_storage_path.is_none(),
    {
        KeysetConfig {
            stale_key_count: default_stale_key_count(),
            key_rotation_interval: default_key_rotation_interval(),
            key_storage_path: None,
        }
    }
}

/// Seconds between two key rotations unless configured otherwise: one day.
pub fn default_key_rotation_interval() -> (r: usize)
    ensures
        r == 86400,
{
    86400
}

/// Old keys kept unless configured otherwise: a week's worth at one key per day.
pub fn default_stale_key_count() -> (r: usize)
    ensures
        r == 7,
{
    7
}

/// Timeout of an NTS key exchange in milliseconds unless configured otherwise.
pub fn default_nts_ke_timeout() -> (r: u64)
    ensures
        r == 1000,
{
    1000
}

/// Concurrent NTS key exchange connections unless configured otherwise.
pub fn default_concurrent_connections() -> (r: usize)
    ensures
        r == 512,
{
    512
}

/// A version of the NTP protocol.
#[derive(Debug, Clone, Copy, PartialEq, Eq, Structural)]
pub enum NtpVersion {
    V3,
    V4,
    V5,
}

/// The versions a server accepts unless configured otherwise.
pub fn default_accepted_ntp_versions() -> (r: Vec<NtpVersion>)
    ensures
        r@ == seq![NtpVersion::V3, NtpVersion::V4],
{
    let r = vec![NtpVersion::V3, NtpVersion::V4];
    assert(r@ =~= seq![NtpVersion::V3, NtpVersion::V4]);
    r
}

/// The versions an NTS key exchange server accepts unless configured otherwise.
pub fn default_accept_ntp_versions() -> (r: Vec<NtpVersion>)
    ensures
        r@ == seq![NtpVersion::V4],
{
    let r = vec![NtpVersion::V4];
    assert(r@ =~= seq![NtpVersion::V4]);
    r
}


/// The decimal digit for `d`.
pub open spec fn digit_char(d: nat) -> char {
    "0123456789"@[d as int]
}

/// The decimal notation of `n`.
pub open spec fn decimal(n: nat) -> Seq<char>
    decreases n,
{
    if n < 10 {
        seq![digit_char(n)]
    } else {
        decimal(n / 10).push(digit_char(n % 10))
    }
}

/// Writes `n` in decimal.
pub fn decimal_string(n: u8) -> (r: String)
    ensures
        r@ == decimal(n as nat),
    decreases n,
{
    let digits = "0123456789";
    proof {
        reveal_strlit("0123456789");
    }
    let d = (n % 10) as usize;
    if n < 10 {
        let mut r = String::new();
        r.append(digits.substring_char(d, d + 1));
        assert(r@ =~= decimal(n as nat));
        r
    } else {
        let mut r = decimal_string(n / 10);
        r.append(digits.substring_char(d, d + 1));
        assert(r@ =~= decimal(n as nat));
        r
    }
}

/// The error for a number that is no NTP version.
pub open spec fn invalid_version_msg(v: u8) -> Seq<char> {
    decimal(v as nat) + " is not a valid NTP version, version must be 4 and/or 5"@
}

/// The versions that a server configuration lists, or the error for the
/// first entry that is not 3, 4 or 5.
pub open spec fn versions_spec(data: Seq<u8>, nts: bool) -> Result<Seq<NtpVersion>, Seq<char>>
    decreases data.len(),
{
    if data.len() == 0 {
        Ok(seq![])
    } else {
        match versions_spec(data.drop_last(), nts) {
            Err(e) => Err(e),
            Ok(vs) => {
                let v = data.last();
                if v == 3 && nts {
                    Err("Ntp version 3 does not support NTS!"@)
                } else if v == 3 {
                    Ok(vs.push(NtpVersion::V3))
                } else if v == 4 {
                    Ok(vs.push(NtpVersion::V4))
                } else if v == 5 {
                    Ok(vs.push(NtpVersion::V5))
                } else {
                    Err(invalid_version_msg(v))
                }
            },
        }
    }
}

/// The parsed versions or the error message, as plain values.
pub open spec fn versions_result_view(r: Result<Vec<NtpVersion>, String>) -> Result<Seq<NtpVersion>, Seq<char>> {
    match r {
        Ok(v) => Ok(v@),
        Err(e) => Err(e@),
    }
}

/// Reads the NTP versions that a server accepts; NTS key exchange servers
/// (`nts`) cannot accept version 3.
fn versions_from_numbers(data: &Vec<u8>, nts: bool) -> (r: Result<Vec<NtpVersion>, String>)
    ensures
        versions_result_view(r) == versions_spec(data@, nts),
{
    let mut out: Vec<NtpVersion> = Vec::new();
    let mut i: usize = 0;
    while i < data.len()
        invariant
            i <= data@.len(),
            versions_spec(data@.subrange(0, i as int), nts) == Ok::<Seq<NtpVersion>, Seq<char>>(out@),
        decreases data.len() - i,
    {
        let v = data[i];
        let ghost pre = data@.subrange(0, i as int);
        let ghost next = data@.subrange(0, i + 1);
        assert(next.drop_last() =~= pre);
        assert(next.last() == v);
        if v == 3 && nts {
            proof { lemma_versions_prefix_err(data@, nts, (i + 1) as nat); }
            return Err("Ntp version 3 does not support NTS!".to_owned());
        } else if v == 3 {
            out.push(NtpVersion::V3);
        } else if v == 4 {
            out.push(NtpVersion::V4);
        } else if v == 5 {
            out.push(NtpVersion::V5);
        } else {
            let mut m = decimal_string(v);
            m.append(" is not a valid NTP version, version must be 4 and/or 5");
            proof { lemma_versions_prefix_err(data@, nts, (i + 1) as nat); }
            return Err(m);
        }
        i += 1;
    }
    assert(data@.subrange(0, data@.len() as int) =~= data@);
    Ok(out)
}

/// An error on a prefix of the list is the error of the whole list.
proof fn lemma_versions_prefix_err(data: Seq<u8>, nts: bool, j: nat)
    requires
        j <= data.len(),
    ensures
        versions_spec(data.subrange(0, j as int), nts) is Err ==> versions_spec(data, nts) == versions_spec(
            data.subrange(0, j as int),
            nts,
        ),
    decreases data.len() - j,
{
    if j < data.len() {
        lemma_versions_prefix_err(data, nts, j + 1);
        assert(data.subrange(0, (j + 1) as int).drop_last() =~= data.subrange(0, j as int));
    } else {
        assert(data.subrange(0, j as int) =~= data);
    }
}

/// The NTP versions a server accepts, from their numbers: 3, 4 or 5.
pub fn accepted_ntp_versions(data: &Vec<u8>) -> (r: Result<Vec<NtpVersion>, String>)
    ensures
        versions_result_view(r) == versions_spec(data@, false),
{
    versions_from_numbers(data, false)
}

/// The NTP versions an NTS key exchange server accepts, from their numbers:
/// 4 or 5, as version 3 has no NTS.
pub fn accepted_ntp_versions_for_nts(data: &Vec<u8>) -> (r: Result<Vec<NtpVersion>, String>)
    ensures
        versions_result_view(r) == versions_spec(data@, true),
{
    versions_from_numbers(data, true)
}

/// What a server does with a client that a filter rejects.
#[derive(Debug, Clone, Copy, PartialEq, Eq, Structural)]
pub enum FilterAction {
    Ignore,
    Deny,
}

/// The NTS requirement a setting names: `ignore` or `deny`.
pub open spec fn require_nts_named(s: Seq<char>) -> Option<FilterAction> {
    if s == "ignore"@ {
        Some(FilterAction::Ignore)
    } else if s == "deny"@ {
        Some(FilterAction::Deny)
    } else {
        None
    }
}

/// The NTS requirement written as a name, or the error for an unknown one.
pub fn require_nts_from_str(s: &str) -> (r: Result<Option<FilterAction>, String>)
    ensures
        match r {
            Ok(a) => require_nts_named(s@) is Some && a == require_nts_named(s@),
            Err(e) => require_nts_named(s@) is None && e@ == "unknown variant `"@ + s@
                + "`, expected `ignore` or `deny`"@,
        },
{
    let is_ignore = s.to_owned() == "ignore".to_owned();
    let is_deny = s.to_owned() == "deny".to_owned();
    if is_ignore {
        Ok(Some(FilterAction::Ignore))
    } else if is_deny {
        Ok(Some(FilterAction::Deny))
    } else {
        let mut e = "unknown variant `".to_owned();
        e.append(s);
        e.append("`, expected `ignore` or `deny`");
        Err(e)
    }
}

/// The NTS requirement written as a switch: on means unauthenticated
/// clients are ignored.
pub fn require_nts_from_bool(v: bool) -> (r: Option<FilterAction>)
    ensures
        r == (if v { Some(FilterAction::Ignore) } else { None }),
{
    if v {
        Some(FilterAction::Ignore)
    } else {
        None
    }
}

} // verus!
