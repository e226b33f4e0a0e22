//! Where the dashboard finds its data.

use vstd::prelude::*;

use crate::app::AccountInfo;
use crate::chat::opt;
use crate::logs::ServerStatus;
use crate::text::{chars_of, same, trim, trimmed};

verus! {

/// A file in a directory: the two joined by a slash, unless the directory is empty or ends
/// with one.
pub open spec fn joined(dir: Seq<char>, name: Seq<char>) -> Seq<char> {
    if dir.len() == 0 || dir.last() == '/' {
        dir + name
    } else {
        dir + "/"@ + name
    }
}

/// A file in a directory.
pub fn join_path(dir: &str, name: &str) -> (r: String)
    ensures
        r@ == joined(dir@, name@),
{
    let v = chars_of(dir);
    let mut r = dir.to_owned();
    if v.len() > 0 && v[v.len() - 1] != '/' {
        r.push_str("/");
    }
    r.push_str(name);
    r
}

/// Finds the dashboard's data.
#[derive(Debug, Clone, Copy, PartialEq, Eq, Structural)]
pub struct DataProvider;

impl DataProvider {
    /// The provider.
    pub fn new() -> (r: DataProvider)
        ensures
            r == DataProvider,
    {
        DataProvider
    }

    /// The log file in the configuration directory.
    pub fn get_log_path(config_dir: &str) -> (r: String)
        ensures
            r@ == joined(config_dir@, "agcp.log"@),
    {
        join_path(config_dir, "agcp.log")
    }

    /// The file in the configuration directory that holds the server's process id.
    pub fn get_pid_path(config_dir: &str) -> (r: String)
        ensures
            r@ == joined(config_dir@, "agcp.pid"@),
    {
        join_path(config_dir, "agcp.pid")
    }

    /// Whether the server runs, from its process id, where its file holds one, and from
    /// whether that process is alive.
    pub fn get_server_status(pid: Option<i32>, alive: bool) -> (r: ServerStatus)
        ensures
            r == (if pid is Some && alive {
                ServerStatus::Running
            } else {
                ServerStatus::Stopped
            }),
    {
        match pid {
            Some(_) => {
                if alive {
                    ServerStatus::Running
                } else {
                    ServerStatus::Stopped
                }
            },
            None => ServerStatus::Stopped,
        }
    }
}

impl Default for DataProvider {
    fn default() -> (r: DataProvider)
        ensures
            r == DataProvider,
    {
        DataProvider::new()
    }
}

/// The file of the saved statistics in the configuration directory.
pub fn stats_path(config_dir: &str) -> (r: String)
    ensures
        r@ == joined(config_dir@, "stats.json"@),
{
    join_path(config_dir, "stats.json")
}

/// The file of the saved token history in the configuration directory.
pub fn token_history_path(config_dir: &str) -> (r: String)
    ensures
        r@ == joined(config_dir@, "token_history.json"@),
{
    join_path(config_dir, "token_history.json")
}

/// The signed number that `s` writes down, where it fits in 32 bits.
pub open spec fn signed_number(s: Seq<char>) -> Option<int> {
    if s.len() > 0 && s[0] == '-' {
        let d = s.subrange(1, s.len() as int);
        if d.len() > 0 && crate::text::all_digits(d) && crate::text::digits_value(d)
            <= 0x8000_0000 {
            Some(-(crate::text::digits_value(d) as int))
        } else {
            None
        }
    } else {
        match crate::text::number(s, 0x7fff_ffff) {
            Some(n) => Some(n as int),
            None => None,
        }
    }
}

/// The process id in the text of its file.
pub fn parse_pid(text: &str) -> (r: Option<i32>)
    ensures
        match r {
            Some(n) => signed_number(trimmed(text@)) == Some(n as int),
            None => signed_number(trimmed(text@)) is None,
        },
{
    let t = trim(text);
    let v = chars_of(&t);
    if v.len() > 0 && v[0] == '-' {
        if v.len() > 1 && v[1] == '+' {
            proof {
                let d = v@.subrange(1, v@.len() as int);
                assert(d[0] == '+');
                assert(!crate::text::all_digits(d));
            }
            return None;
        }
        let digits = crate::text::text_between(&v, 1, v.len());
        match crate::text::parse_number(&digits) {
            Some(n) => {
                if n <= 0x8000_0000 {
                    Some((-(n as i64)) as i32)
                } else {
                    None
                }
            },
            None => None,
        }
    } else {
        match crate::text::parse_number(&t) {
            Some(n) => {
                if n <= 0x7fff_ffff {
                    Some(n as i32)
                } else {
                    None
                }
            },
            None => None,
        }
    }
}

/// An account as it is stored.
#[derive(Debug, Clone, PartialEq)]
pub struct StoredAccount {
    pub id: String,
    pub email: String,
    pub enabled: bool,
    pub is_invalid: bool,
    pub subscription_tier: Option<String>,
}

/// Whether an account is shown as it is stored, and as the active one exactly where its id is
/// that of the active one.
pub open spec fn shows_account(a: AccountInfo, s: StoredAccount, active: Option<Seq<char>>) -> bool {
    &&& a.id@ == s.id@
    &&& a.email@ == s.email@
    &&& a.is_active == (active == Some(s.id@))
    &&& a.enabled == s.enabled
    &&& a.is_invalid == s.is_invalid
    &&& opt(a.subscription_tier) == opt(s.subscription_tier)
}

impl DataProvider {
    /// The accounts as they are shown, in the order in which they are stored.
    pub fn get_accounts(stored: &Vec<StoredAccount>, active: &Option<String>) -> (r: Vec<
        AccountInfo,
    >)
        ensures
            r@.len() == stored@.len(),
            forall|i: int|
                0 <= i < r@.len() ==> shows_account(#[trigger] r@[i], stored@[i], opt(*active)),
    {
        let mut r: Vec<AccountInfo> = Vec::new();
        let n: usize = stored.len();
        let mut i: usize = 0;
        while i < n
            invariant
                i <= n == stored@.len(),
                r@.len() == i,
                forall|k: int|
                    0 <= k < i ==> shows_account(#[trigger] r@[k], stored@[k], opt(*active)),
            decreases n - i,
        {
            let s = &stored[i];
            let is_active = match active {
                Some(id) => same(id, &s.id),
                None => false,
            };
            let subscription_tier = match &s.subscription_tier {
                Some(t) => Some(t.clone()),
                None => None,
            };
            r.push(
                AccountInfo {
                    id: s.id.clone(),
                    email: s.email.clone(),
                    is_active,
                    enabled: s.enabled,
                    is_invalid: s.is_invalid,
                    subscription_tier,
                },
            );
            i = i + 1;
        }
        r
    }
}

/// The effects of the dashboard that are told apart.
#[derive(Debug, Clone, Copy, PartialEq, Eq, PartialOrd, Ord, Structural)]
pub enum EffectKey {
    Startup,
    TabTransition,
    HelpOverlay,
}

impl Default for EffectKey {
    fn default() -> (r: EffectKey)
        ensures
            r == EffectKey::Startup,
    {
        EffectKey::Startup
    }
}

/// A file in a directory is named by the directory, one slash and the file.
pub proof fn paths_have_one_slash(dir: Seq<char>, name: Seq<char>)
    ensures
        crate::text::starts(joined(dir, name), dir),
        crate::text::ends(joined(dir, name), name),
        dir.len() > 0 ==> joined(dir, name).len() == dir.len() + name.len() + (if dir.last()
            == '/' {
            0int
        } else {
            1
        }) && joined(dir, name)[joined(dir, name).len() - name.len() - 1] == '/',
        dir.len() == 0 ==> joined(dir, name) == name,
{
    reveal_strlit("/");
    let p = joined(dir, name);
    assert(p.subrange(0, dir.len() as int) =~= dir);
    assert(p.subrange(p.len() - name.len(), p.len() as int) =~= name);
    if dir.len() == 0 {
        assert(p =~= name);
    }
}

/// A process id is read back from its decimal notation, with white space round it or without,
/// and below zero too.
pub proof fn process_ids_are_read_back(n: nat)
    requires
        n <= 0x7fff_ffff,
    ensures
        signed_number(crate::text::decimal(n)) == Some(n as int),
        signed_number("-"@ + crate::text::decimal(n)) == Some(-(n as int)),
{
    reveal_strlit("-");
    crate::text::decimal_is_read_back(n);
    let d = crate::text::decimal(n);
    assert(crate::text::is_digit(d[0]));
    assert(crate::text::number(d, 0x7fff_ffff) == Some(n));
    let s = "-"@ + d;
    assert(s[0] == '-');
    assert(s.subrange(1, s.len() as int) =~= d);
}

} // verus!
