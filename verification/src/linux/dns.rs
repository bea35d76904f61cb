//! System DNS management.
//!
//! [`LinuxDnsManager`] writes a `resolv.conf`-style file on behalf of the
//! daemon, marking every file it writes with an owner sentinel comment. It
//! refuses to touch files managed by another component (systemd-resolved,
//! dnsmasq, or a foreign config). The file itself is read, written and removed
//! by the caller.

use vstd::prelude::*;

use crate::connection::ip::{DnsConfig, DnsConfigView, DnsError, DnsOwnership};
use crate::io_error::{IoError, IoErrorKind};
use crate::net::IpAddr;
use crate::text;
use crate::text::{
    chars_of, concat3, decimal_text, lines_of, same_text, strip_prefix, text_of, trim,
};

verus! {

/// What the owner is named behind, in the first line of a file that is owned.
pub const SENTINEL_PREFIX: &'static str = "# nmd-owned owner=";

/// The file that is managed by default.
pub const DEFAULT_PATH: &'static str = "/etc/resolv.conf";

// --- Owners -------------------------------------------------------------------------------

/// The owner that the first sentinel among lines names, if it names one.
pub open spec fn owner_among(found: Seq<Seq<char>>) -> Option<Seq<char>>
    decreases found.len(),
{
    if found.len() == 0 {
        None
    } else if text::starts_with(found[0], SENTINEL_PREFIX@) {
        let owner = text::trimmed(found[0].skip(SENTINEL_PREFIX@.len() as int));
        if owner.len() == 0 {
            None
        } else {
            Some(owner)
        }
    } else {
        owner_among(found.skip(1))
    }
}

/// The owner of a file with the given content.
pub open spec fn owner_in(content: Seq<char>) -> Option<Seq<char>> {
    owner_among(text::lines(content))
}

/// Reads the owner of a file with the given content.
pub fn parse_owner(content: &str) -> (r: Option<String>)
    ensures
        text::text_view(r) == owner_in(content@),
{
    let chars: Vec<char> = chars_of(content);
    let found: Vec<Vec<char>> = lines_of(chars.as_slice());
    let ghost views = text::lines(content@);
    let mut i: usize = 0;
    assert(views.skip(0) =~= views);
    while i < found.len()
        invariant
            i <= found@.len(),
            text::char_views(found@) == views,
            views == text::lines(content@),
            owner_among(views) == owner_among(views.skip(i as int)),
        decreases found@.len() - i,
    {
        let ghost rest = views.skip(i as int);
        assert(rest[0] == found@[i as int]@);
        assert(rest.skip(1) =~= views.skip(i + 1));
        match strip_prefix(found[i].as_slice(), SENTINEL_PREFIX) {
            Some(name) => {
                let owner: Vec<char> = trim(name.as_slice());
                if owner.len() == 0 {
                    return None;
                }
                return Some(text_of(owner.as_slice()));
            },
            None => {},
        }
        i = i + 1;
    }
    None
}

/// Whether every line of a text is blank.
pub open spec fn blank(content: Seq<char>) -> bool {
    forall|i: int| 0 <= i < text::lines(content).len() ==> text::trimmed(#[trigger] text::lines(content)[i]).len() == 0
}

fn is_blank(content: &str) -> (r: bool)
    ensures
        r == blank(content@),
{
    let chars: Vec<char> = chars_of(content);
    let found: Vec<Vec<char>> = lines_of(chars.as_slice());
    let ghost views = text::lines(content@);
    let mut i: usize = 0;
    while i < found.len()
        invariant
            i <= found@.len(),
            text::char_views(found@) == views,
            views == text::lines(content@),
            forall|j: int| 0 <= j < i ==> text::trimmed(#[trigger] views[j]).len() == 0,
        decreases found@.len() - i,
    {
        assert(views[i as int] == found@[i as int]@);
        let inner: Vec<char> = trim(found[i].as_slice());
        if inner.len() > 0 {
            return false;
        }
        i = i + 1;
    }
    assert(views.len() == found@.len());
    true
}

// --- Contents -------------------------------------------------------------------------------

/// Domains with a space between them.
pub open spec fn spaced(domains: Seq<Seq<char>>) -> Seq<char>
    decreases domains.len(),
{
    if domains.len() == 0 {
        Seq::empty()
    } else if domains.len() == 1 {
        domains[0]
    } else {
        spaced(domains.drop_last()) + seq![' '] + domains.last()
    }
}

/// A line for each name server.
pub open spec fn server_lines(servers: Seq<IpAddr>) -> Seq<char>
    decreases servers.len(),
{
    if servers.len() == 0 {
        Seq::empty()
    } else {
        server_lines(servers.drop_last()) + ("nameserver "@ + servers.last().text() + "\n"@)
    }
}

/// What a configuration looks like in the file.
pub open spec fn config_text(config: DnsConfigView) -> Seq<char> {
    (if config.search_domains.len() == 0 {
        Seq::empty()
    } else {
        "search "@ + spaced(config.search_domains) + "\n"@
    }) + server_lines(config.servers)
}

/// Writes a configuration as it looks in the file.
pub fn serialize(config: &DnsConfig) -> (r: String)
    ensures
        r@ == config_text(config@),
{
    let mut out: String = String::new();
    if config.search_domains.len() > 0 {
        out.append("search ");
        let ghost head = out@;
        let ghost domains = text::string_views(config.search_domains@);
        let mut i: usize = 0;
        proof {
            assert(domains.take(0) =~= Seq::empty());
            assert(head + spaced(domains.take(0)) =~= head);
        }
        while i < config.search_domains.len()
            invariant
                i <= config.search_domains@.len(),
                domains == text::string_views(config.search_domains@),
                out@ == head + spaced(domains.take(i as int)),
            decreases config.search_domains@.len() - i,
        {
            let ghost before = spaced(domains.take(i as int));
            if i > 0 {
                out.append(" ");
            }
            out.append(config.search_domains[i].as_str());
            i = i + 1;
            proof {
                reveal_strlit(" ");
                let now = domains.take(i as int);
                assert(now.drop_last() =~= domains.take(i - 1));
                assert(now.last() == domains[i - 1]);
                if i == 1 {
                    assert(out@ =~= head + spaced(now));
                } else {
                    assert(" "@ =~= seq![' ']);
                    assert(out@ =~= head + (before + seq![' '] + domains[i - 1]));
                }
            }
        }
        assert(domains.take(i as int) =~= domains);
        out.append("\n");
    }
    let ghost start = out@;
    let mut k: usize = 0;
    assert(config.servers@.take(0) =~= Seq::empty());
    assert(start + server_lines(config.servers@.take(0)) =~= start);
    while k < config.servers.len()
        invariant
            k <= config.servers@.len(),
            out@ == start + server_lines(config.servers@.take(k as int)),
        decreases config.servers@.len() - k,
    {
        let line: String = concat3("nameserver ", config.servers[k].to_string().as_str(), "\n");
        out.append(line.as_str());
        k = k + 1;
        proof {
            let now = config.servers@.take(k as int);
            assert(now.drop_last() =~= config.servers@.take(k - 1));
            assert(now.last() == config.servers@[k - 1]);
            assert(out@ =~= start + server_lines(now));
        }
    }
    assert(config.servers@.take(k as int) =~= config.servers@);
    assert(out@ =~= config_text(config@));
    out
}

/// What a file looks like that an owner wrote.
pub open spec fn marked(owner: Seq<char>, config: DnsConfigView) -> Seq<char> {
    SENTINEL_PREFIX@ + owner + "\n"@ + config_text(config)
}

// --- Decisions --------------------------------------------------------------------------------

/// What was read of the file: its content, or nothing when there is no file.
pub open spec fn seen(read: Result<String, IoError>) -> Option<Seq<char>> {
    match read {
        Ok(content) => Some(content@),
        Err(_) => None,
    }
}

/// Whether reading failed for another reason than that there is no file.
pub open spec fn read_failed(read: Result<String, IoError>) -> bool {
    read matches Err(err) && err.kind != IoErrorKind::NotFound
}

/// Whether an owner may write the file: it is its own, or there is none, or
/// nothing is in it.
pub open spec fn may_write(owner: Seq<char>, content: Option<Seq<char>>) -> bool {
    match content {
        None => true,
        Some(text) => match owner_in(text) {
            Some(existing) => existing == owner,
            None => blank(text),
        },
    }
}

/// Manages DNS configuration by writing a marked `resolv.conf` file.
#[derive(Debug, PartialEq, Eq)]
pub struct LinuxDnsManager {
    pub path: String,
}

impl LinuxDnsManager {
    /// A manager of the file at a path.
    pub fn new(path: String) -> (r: Self)
        ensures
            r.path == path,
    {
        LinuxDnsManager { path }
    }

    /// Decides about writing a configuration, given what was read of the file.
    /// The result is the content to write, and the handle to remove it by.
    pub fn apply(&self, owner: &str, config: &DnsConfig, read: Result<String, IoError>) -> (r:
        Result<(String, DnsOwnership), DnsError>)
        ensures
            match r {
                Ok((content, ownership)) => {
                    &&& owner@.len() > 0
                    &&& !read_failed(read)
                    &&& may_write(owner@, seen(read))
                    &&& content@ == marked(owner@, config@)
                    &&& ownership.owner@ == owner@
                    &&& ownership.path@ == self.path@
                },
                Err(e) => if owner@.len() == 0 {
                    e == DnsError::InvalidConfig("owner must not be empty")
                } else if read_failed(read) {
                    e == DnsError::Io(read->Err_0)
                } else {
                    &&& !may_write(owner@, seen(read))
                    &&& e matches DnsError::ForeignManaged { path }
                    &&& path@ == self.path@
                },
            },
    {
        if owner.is_empty() {
            return Err(DnsError::InvalidConfig("owner must not be empty"));
        }
        match read {
            Err(err) => {
                if err.kind != IoErrorKind::NotFound {
                    return Err(DnsError::Io(err));
                }
            },
            Ok(content) => {
                let free: bool = match parse_owner(content.as_str()) {
                    Some(existing) => same_text(existing.as_str(), owner),
                    None => is_blank(content.as_str()),
                };
                if !free {
                    return Err(DnsError::ForeignManaged { path: self.path.clone() });
                }
            },
        }
        let body: String = serialize(config);
        let mut content: String = concat3(SENTINEL_PREFIX, owner, "\n");
        content.append(body.as_str());
        Ok((content, DnsOwnership { owner: owner.to_owned(), path: self.path.clone() }))
    }

    /// Decides about removing a configuration, given what was read of the file:
    /// whether the file is to be removed. A file without an owner is left.
    pub fn remove(&self, ownership: &DnsOwnership, read: Result<String, IoError>) -> (r: Result<
        bool,
        DnsError,
    >)
        ensures
            if read_failed(read) {
                r == Err::<bool, DnsError>(DnsError::Io(read->Err_0))
            } else {
                match (match seen(read) {
                    Some(content) => owner_in(content),
                    None => None,
                }) {
                    None => r == Ok::<bool, DnsError>(false),
                    Some(existing) => if existing == ownership.owner@ {
                        r == Ok::<bool, DnsError>(true)
                    } else {
                        r matches Err(DnsError::ForeignManaged { path }) && path@ == self.path@
                    },
                }
            },
    {
        match read {
            Err(err) => {
                if err.kind != IoErrorKind::NotFound {
                    return Err(DnsError::Io(err));
                }
                Ok(false)
            },
            Ok(content) => match parse_owner(content.as_str()) {
                None => Ok(false),
                Some(existing) => {
                    if same_text(existing.as_str(), ownership.owner.as_str()) {
                        Ok(true)
                    } else {
                        Err(DnsError::ForeignManaged { path: self.path.clone() })
                    }
                },
            },
        }
    }

    /// The name of the file that is written first and then moved into place.
    /// Attempts after the first carry a number.
    pub fn temporary_name(file_name: Option<&str>, pid: u32, attempt: u32) -> (r: String)
        ensures
            r@ == "."@ + (match file_name {
                Some(name) => name@,
                None => "resolv.conf"@,
            }) + ".tmp"@ + text::decimal(pid as nat) + (if attempt == 0 {
                Seq::empty()
            } else {
                "."@ + text::decimal(attempt as nat)
            }),
    {
        let mut out: String = ".".to_owned();
        match file_name {
            Some(name) => {
                out.append(name);
            },
            None => {
                out.append("resolv.conf");
            },
        }
        out.append(".tmp");
        out.append(decimal_text(pid as u64).as_str());
        if attempt > 0 {
            out.append(".");
            out.append(decimal_text(attempt as u64).as_str());
        }
        assert(out@ =~= "."@ + (match file_name {
            Some(name) => name@,
            None => "resolv.conf"@,
        }) + ".tmp"@ + text::decimal(pid as nat) + (if attempt == 0 {
            Seq::empty()
        } else {
            "."@ + text::decimal(attempt as nat)
        }));
        out
    }
}

impl Default for LinuxDnsManager {
    fn default() -> (r: Self)
        ensures
            r.path@ == DEFAULT_PATH@,
    {
        LinuxDnsManager::new(DEFAULT_PATH.to_owned())
    }
}

// --- Ownership --------------------------------------------------------------------------------

/// Whether an owner can be told from the line that names it: it is not empty,
/// stands on one line, and has no white space around it.
pub open spec fn proper_owner(owner: Seq<char>) -> bool {
    &&& owner.len() > 0
    &&& !owner.contains('\n')
    &&& !text::is_white(owner[0])
    &&& !text::is_white(owner.last())
}

/// The file that an owner wrote is owned by that owner.
pub proof fn lemma_owner_of_marked(owner: Seq<char>, config: DnsConfigView)
    requires
        proper_owner(owner),
    ensures
        owner_in(marked(owner, config)) == Some(owner),
{
    reveal_strlit("# nmd-owned owner=");
    reveal_strlit("\n");
    let prefix = SENTINEL_PREFIX@;
    let content = marked(owner, config);
    let line = prefix + owner;
    let k = line.len() as int;
    assert(content == line + "\n"@ + config_text(config));
    assert forall|i: int| 0 <= i < k implies #[trigger] content[i] != '\n' by {
        assert(content[i] == line[i]);
        if i >= prefix.len() {
            assert(line[i] == owner[i - prefix.len()]);
            assert(owner.contains(owner[i - prefix.len()]));
        }
    }
    assert(content[k] == '\n');
    text::lemma_cut_is(content, '\n', k);
    assert(content.take(k) =~= line);
    assert(line.last() == owner.last());
    assert(text::without_return(line) == line);
    let found = text::lines(content);
    assert(found[0] == line);
    assert(line.take(prefix.len() as int) =~= prefix);
    assert(line.skip(prefix.len() as int) =~= owner);
    assert(text::trim_left(owner) == owner);
    assert(text::trim_right(owner) == owner);
}

/// What an owner wrote, it may write again and nobody else may.
pub proof fn lemma_only_owner_rewrites(owner: Seq<char>, other: Seq<char>, config: DnsConfigView)
    requires
        proper_owner(owner),
    ensures
        may_write(other, Some(marked(owner, config))) <==> other == owner,
{
    lemma_owner_of_marked(owner, config);
}

/// A file that names no owner and has anything in it is written by nobody.
pub proof fn lemma_foreign_is_left(owner: Seq<char>, content: Seq<char>)
    requires
        owner_in(content) is None,
        !blank(content),
    ensures
        !may_write(owner, Some(content)),
{
}

} // verus!
