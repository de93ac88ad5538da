//! Resolving the process that opened the synthetic device: its namespace
//! inodes, the outermost ancestor sharing its mount and network namespaces,
//! and its bitness. Reading `/proc` is left to the caller; this module works
//! on what was read.

use vstd::prelude::*;
use crate::text::{
    all_digits, chars_eq_str, chars_of, decimal, digits_value, find_char, lemma_find_char_range,
    lines_of, parse_u64, push_decimal, push_str, split_lines, starts_with, occurs_at_exec,
    string_of,
};

verus! {

/// A process: this daemon itself, or a process id.
#[derive(Clone, Copy, PartialEq, Eq, Debug, Hash, Structural)]
pub enum Pid {
    SelfPid,
    Pid(i32),
}

/// The `/proc` directory of a process.
pub open spec fn pid_path(p: Pid) -> Seq<char> {
    match p {
        Pid::SelfPid => "/proc/self"@,
        Pid::Pid(n) => if n >= 0 {
            "/proc/"@ + decimal(n as nat)
        } else {
            "/proc/-"@ + decimal((-n) as nat)
        },
    }
}

impl Pid {
    /// The `/proc` directory of this process.
    pub fn path(&self) -> (r: String)
        ensures
            r@ == pid_path(*self),
    {
        let mut out: Vec<char> = Vec::new();
        match self {
            Pid::SelfPid => {
                push_str(&mut out, "/proc/self");
            },
            Pid::Pid(n) => {
                if *n >= 0 {
                    push_str(&mut out, "/proc/");
                    push_decimal(&mut out, *n as u64);
                } else {
                    push_str(&mut out, "/proc/-");
                    let m: i64 = -(*n as i64);
                    push_decimal(&mut out, m as u64);
                }
            },
        }
        string_of(&out)
    }
}

/// The inode numbers of the ten namespaces of a process, where read.
#[derive(Clone, Copy, Debug, Default, PartialEq, Eq, Hash, Structural)]
pub struct NamespaceInodes {
    pub net: Option<u64>,
    pub uts: Option<u64>,
    pub ipc: Option<u64>,
    pub pid: Option<u64>,
    pub pid_for_children: Option<u64>,
    pub user: Option<u64>,
    pub mnt: Option<u64>,
    pub cgroup: Option<u64>,
    pub time: Option<u64>,
    pub time_for_children: Option<u64>,
}

/// Two processes are routed alike when their mount and network namespaces are.
pub open spec fn same_mnt_and_net(a: NamespaceInodes, b: NamespaceInodes) -> bool {
    a.mnt == b.mnt && a.net == b.net
}

impl NamespaceInodes {
    /// No namespace read.
    pub fn empty() -> (r: NamespaceInodes)
        ensures
            r == empty_inodes(),
    {
        NamespaceInodes {
            net: None,
            uts: None,
            ipc: None,
            pid: None,
            pid_for_children: None,
            user: None,
            mnt: None,
            cgroup: None,
            time: None,
            time_for_children: None,
        }
    }

    pub fn equal_mnt_and_net(&self, other: &NamespaceInodes) -> (r: bool)
        ensures
            r == same_mnt_and_net(*self, *other),
    {
        self.mnt == other.mnt && self.net == other.net
    }
}

pub open spec fn empty_inodes() -> NamespaceInodes {
    NamespaceInodes {
        net: None,
        uts: None,
        ipc: None,
        pid: None,
        pid_for_children: None,
        user: None,
        mnt: None,
        cgroup: None,
        time: None,
        time_for_children: None,
    }
}

/// The namespace directories of a process and of its container root.
#[derive(Clone, Debug, Default, PartialEq, Eq, Hash)]
pub struct Namespaces {
    pub nspath: String,
    pub nsroot: String,
    pub nsinodes: NamespaceInodes,
}

impl Namespaces {
    pub fn equal_mnt_and_net(&self, other: &Namespaces) -> (r: bool)
        ensures
            r == same_mnt_and_net(self.nsinodes, other.nsinodes),
    {
        self.nsinodes.equal_mnt_and_net(&other.nsinodes)
    }
}

/// The process that opened a session, as far as routing and namespace entry
/// need it.
#[derive(Clone, Debug, Default, PartialEq, Eq, Hash)]
pub struct RequestingProcess {
    /// `/proc/<pid>/ns` of the process itself.
    pub nspath: String,
    /// `/proc/<pid>/ns` of the outermost ancestor with the same mount and
    /// network namespaces.
    pub nsroot: String,
    pub namespaces: NamespaceInodes,
    /// Whether the process is a 32-bit one.
    pub is_compat: bool,
}

impl RequestingProcess {
    pub fn equal_mnt_and_net(&self, other: &RequestingProcess) -> (r: bool)
        ensures
            r == same_mnt_and_net(self.namespaces, other.namespaces),
    {
        self.namespaces.equal_mnt_and_net(&other.namespaces)
    }

    pub fn equal_mnt_and_net_ns(&self, other: &NamespaceInodes) -> (r: bool)
        ensures
            r == same_mnt_and_net(self.namespaces, *other),
    {
        self.namespaces.equal_mnt_and_net(other)
    }

    /// A copy of this record.
    pub fn duplicate(&self) -> (r: RequestingProcess)
        ensures
            r == *self,
    {
        RequestingProcess {
            nspath: self.nspath.clone(),
            nsroot: self.nsroot.clone(),
            namespaces: self.namespaces,
            is_compat: self.is_compat,
        }
    }
}

/// The inode in a namespace link such as `net:[4026531840]`: the digits
/// between the first `[` and the first `]`.
pub open spec fn ns_link_inode(link: Seq<char>) -> Option<u64> {
    match (find_char(link, '['), find_char(link, ']')) {
        (Some(a), Some(b)) => {
            let d = link.subrange(a + 1, b);
            if a < b && all_digits(d) && digits_value(d) <= u64::MAX {
                Some(digits_value(d) as u64)
            } else {
                None
            }
        },
        _ => None,
    }
}

fn find_char_exec(s: &Vec<char>, c: char) -> (r: Option<usize>)
    ensures
        r matches Some(i) ==> find_char(s@, c) == Some(i as int),
        r is None ==> find_char(s@, c) is None,
{
    let mut i: usize = 0;
    while i < s.len()
        invariant
            i <= s@.len(),
            forall|j: int| 0 <= j < i ==> s@[j] != c,
        decreases s@.len() - i,
    {
        if s[i] == c {
            proof {
                crate::text::lemma_find_char_unique(s@, c, i as int);
            }
            return Some(i);
        }
        i = i + 1;
    }
    proof {
        crate::text::lemma_find_char_unique(s@, c, i as int);
    }
    None
}

fn subvec(v: &Vec<char>, a: usize, b: usize) -> (r: Vec<char>)
    requires
        a <= b <= v@.len(),
    ensures
        r@ == v@.subrange(a as int, b as int),
{
    let mut out: Vec<char> = Vec::new();
    let mut i: usize = a;
    while i < b
        invariant
            a <= i <= b,
            b <= v@.len(),
            out@ == v@.subrange(a as int, i as int),
        decreases b - i,
    {
        out.push(v[i]);
        i = i + 1;
        assert(out@ =~= v@.subrange(a as int, i as int));
    }
    out
}

/// Reads the inode of a namespace link.
pub fn parse_ns_link(link: &str) -> (r: Option<u64>)
    ensures
        r == ns_link_inode(link@),
{
    let s = chars_of(link);
    let open = find_char_exec(&s, '[');
    let close = find_char_exec(&s, ']');
    match (open, close) {
        (Some(a), Some(b)) => {
            proof {
                lemma_find_char_range(s@, '[');
                lemma_find_char_range(s@, ']');
            }
            if a < b {
                let d = subvec(&s, a + 1, b);
                parse_u64(d.as_slice())
            } else {
                None
            }
        },
        _ => None,
    }
}

/// The namespace record with the inode of the namespace called `name` set;
/// an unknown name changes nothing.
pub open spec fn with_inode(ns: NamespaceInodes, name: Seq<char>, inode: u64) -> NamespaceInodes {
    if name == "net"@ {
        NamespaceInodes { net: Some(inode), ..ns }
    } else if name == "uts"@ {
        NamespaceInodes { uts: Some(inode), ..ns }
    } else if name == "ipc"@ {
        NamespaceInodes { ipc: Some(inode), ..ns }
    } else if name == "pid"@ {
        NamespaceInodes { pid: Some(inode), ..ns }
    } else if name == "pid_for_children"@ {
        NamespaceInodes { pid_for_children: Some(inode), ..ns }
    } else if name == "user"@ {
        NamespaceInodes { user: Some(inode), ..ns }
    } else if name == "mnt"@ {
        NamespaceInodes { mnt: Some(inode), ..ns }
    } else if name == "cgroup"@ {
        NamespaceInodes { cgroup: Some(inode), ..ns }
    } else if name == "time"@ {
        NamespaceInodes { time: Some(inode), ..ns }
    } else if name == "time_for_children"@ {
        NamespaceInodes { time_for_children: Some(inode), ..ns }
    } else {
        ns
    }
}

fn set_inode(ns: &mut NamespaceInodes, name: &str, inode: u64)
    ensures
        *final(ns) == with_inode(*old(ns), name@, inode),
{
    let n = chars_of(name);
    if chars_eq_str(&n, "net") {
        ns.net = Some(inode);
    } else if chars_eq_str(&n, "uts") {
        ns.uts = Some(inode);
    } else if chars_eq_str(&n, "ipc") {
        ns.ipc = Some(inode);
    } else if chars_eq_str(&n, "pid") {
        ns.pid = Some(inode);
    } else if chars_eq_str(&n, "pid_for_children") {
        ns.pid_for_children = Some(inode);
    } else if chars_eq_str(&n, "user") {
        ns.user = Some(inode);
    } else if chars_eq_str(&n, "mnt") {
        ns.mnt = Some(inode);
    } else if chars_eq_str(&n, "cgroup") {
        ns.cgroup = Some(inode);
    } else if chars_eq_str(&n, "time") {
        ns.time = Some(inode);
    } else if chars_eq_str(&n, "time_for_children") {
        ns.time_for_children = Some(inode);
    }
}

/// The namespace record of `(name, link)` pairs read from `/proc/<pid>/ns`,
/// in order; a link without an inode is skipped.
pub open spec fn inodes_of(entries: Seq<(Seq<char>, Seq<char>)>) -> NamespaceInodes
    decreases entries.len(),
{
    if entries.len() == 0 {
        empty_inodes()
    } else {
        let prev = inodes_of(entries.drop_last());
        let (name, link) = entries.last();
        match ns_link_inode(link) {
            Some(inode) => with_inode(prev, name, inode),
            None => prev,
        }
    }
}

pub open spec fn entries_view(entries: Seq<(String, String)>) -> Seq<(Seq<char>, Seq<char>)> {
    entries.map_values(|e: (String, String)| (e.0@, e.1@))
}

/// Builds the namespace record from the `(name, link)` pairs of
/// `/proc/<pid>/ns`.
pub fn get_namespace_inodes(entries: &Vec<(String, String)>) -> (r: NamespaceInodes)
    ensures
        r == inodes_of(entries_view(entries@)),
{
    let mut ns = NamespaceInodes::empty();
    let mut i: usize = 0;
    while i < entries.len()
        invariant
            i <= entries@.len(),
            ns == inodes_of(entries_view(entries@).subrange(0, i as int)),
        decreases entries@.len() - i,
    {
        let (name, link) = &entries[i];
        proof {
            let ev = entries_view(entries@);
            assert(ev.subrange(0, i + 1).drop_last() =~= ev.subrange(0, i as int));
            assert(ev.subrange(0, i + 1).last() == (name@, link@));
        }
        match parse_ns_link(link.as_str()) {
            Some(inode) => set_inode(&mut ns, name.as_str(), inode),
            None => {},
        }
        i = i + 1;
    }
    assert(entries_view(entries@).subrange(0, i as int) =~= entries_view(entries@));
    ns
}

/// The first line that begins with `p`.
pub open spec fn first_line_with_prefix(ls: Seq<Seq<char>>, p: Seq<char>) -> Option<Seq<char>>
    decreases ls.len(),
{
    if ls.len() == 0 {
        None
    } else if starts_with(ls[0], p) {
        Some(ls[0])
    } else {
        first_line_with_prefix(ls.drop_first(), p)
    }
}

pub open spec fn is_blank(c: char) -> bool {
    c == ' ' || c == '\t'
}

/// `s` without leading blanks.
pub open spec fn trim_start(s: Seq<char>) -> Seq<char>
    decreases s.len(),
{
    if s.len() > 0 && is_blank(s[0]) {
        trim_start(s.drop_first())
    } else {
        s
    }
}

/// `s` without trailing blanks.
pub open spec fn trim_end(s: Seq<char>) -> Seq<char>
    decreases s.len(),
{
    if s.len() > 0 && is_blank(s.last()) {
        trim_end(s.drop_last())
    } else {
        s
    }
}

pub open spec fn ppid_prefix() -> Seq<char> {
    "PPid:"@
}

/// The parent pid in the text of `/proc/<pid>/status`: the digits after
/// `PPid:` on the first line that begins with it, blanks around them allowed.
pub open spec fn ppid_of(status: Seq<char>) -> Option<i32> {
    match first_line_with_prefix(lines_of(status), ppid_prefix()) {
        Some(l) => {
            let t = trim_end(trim_start(l.subrange(5, l.len() as int)));
            if all_digits(t) && digits_value(t) <= i32::MAX {
                Some(digits_value(t) as i32)
            } else {
                None
            }
        },
        None => None,
    }
}

proof fn lemma_trim_start_suffix(s: Seq<char>)
    ensures
        exists|k: int|
            0 <= k <= s.len() && trim_start(s) == s.subrange(k, s.len() as int) && forall|j: int|
                0 <= j < k ==> is_blank(s[j]),
    decreases s.len(),
{
    if s.len() > 0 && is_blank(s[0]) {
        lemma_trim_start_suffix(s.drop_first());
        let k = choose|k: int|
            0 <= k <= s.drop_first().len() && trim_start(s.drop_first())
                == s.drop_first().subrange(k, s.drop_first().len() as int) && forall|j: int|
                0 <= j < k ==> is_blank(s.drop_first()[j]);
        assert(s.drop_first().subrange(k, s.drop_first().len() as int) =~= s.subrange(
            k + 1,
            s.len() as int,
        ));
        assert forall|j: int| 0 <= j < k + 1 implies is_blank(s[j]) by {
            if j > 0 {
                assert(s[j] == s.drop_first()[j - 1]);
            }
        }
    } else {
        assert(s.subrange(0, s.len() as int) =~= s);
    }
}

fn trim_blanks(s: &Vec<char>) -> (r: Vec<char>)
    ensures
        r@ == trim_end(trim_start(s@)),
{
    let mut a: usize = 0;
    assert(s@.subrange(0, s@.len() as int) =~= s@);
    while a < s.len() && (s[a] == ' ' || s[a] == '\t')
        invariant
            a <= s@.len(),
            trim_start(s@.subrange(a as int, s@.len() as int)) == trim_start(s@),
        decreases s@.len() - a,
    {
        proof {
            assert(s@.subrange(a as int, s@.len() as int).drop_first() =~= s@.subrange(
                a + 1,
                s@.len() as int,
            ));
        }
        a = a + 1;
    }
    proof {
        let t = s@.subrange(a as int, s@.len() as int);
        if a < s@.len() {
            assert(t[0] == s@[a as int]);
        }
        assert(trim_start(t) == t);
    }
    let mut b: usize = s.len();
    while b > a && (s[b - 1] == ' ' || s[b - 1] == '\t')
        invariant
            a <= b <= s@.len(),
            trim_end(s@.subrange(a as int, b as int)) == trim_end(trim_start(s@)),
        decreases b - a,
    {
        proof {
            assert(s@.subrange(a as int, b as int).drop_last() =~= s@.subrange(a as int, b - 1));
        }
        b = b - 1;
    }
    proof {
        let t = s@.subrange(a as int, b as int);
        if a < b {
            assert(t.last() == s@[b - 1]);
        }
        assert(trim_end(t) == t);
    }
    subvec(s, a, b)
}

/// Reads the parent pid from the text of `/proc/<pid>/status`.
pub fn parse_ppid(status: &str) -> (r: Option<i32>)
    ensures
        r == ppid_of(status@),
{
    let text = chars_of(status);
    let lines = split_lines(&text);
    let prefix = chars_of("PPid:");
    proof {
        reveal_strlit("PPid:");
    }
    let ghost ls = lines@.map_values(|l: Vec<char>| l@);
    let mut i: usize = 0;
    assert(ls.subrange(0, ls.len() as int) =~= ls);
    while i < lines.len()
        invariant
            i <= lines@.len(),
            ls == lines@.map_values(|l: Vec<char>| l@),
            ls == lines_of(status@),
            prefix@ == ppid_prefix(),
            prefix@.len() == 5,
            first_line_with_prefix(ls.subrange(i as int, ls.len() as int), ppid_prefix())
                == first_line_with_prefix(ls, ppid_prefix()),
        decreases lines@.len() - i,
    {
        let line = &lines[i];
        proof {
            assert(ls.subrange(i as int, ls.len() as int)[0] == line@);
            assert(ls.subrange(i as int, ls.len() as int).drop_first() =~= ls.subrange(
                i + 1,
                ls.len() as int,
            ));
        }
        if occurs_at_exec(line, &prefix, 0) {
            let rest = subvec(line, 5, line.len());
            let t = trim_blanks(&rest);
            return match parse_u64(t.as_slice()) {
                Some(v) => if v <= 0x7fff_ffff {
                    Some(v as i32)
                } else {
                    None
                },
                None => None,
            };
        }
        i = i + 1;
    }
    proof {
        assert(ls.subrange(i as int, ls.len() as int) =~= Seq::<Seq<char>>::empty());
    }
    None
}

/// The bitness of an executable from the first five bytes of its ELF header:
/// `Some(true)` for a 32-bit one, `Some(false)` for a 64-bit one, `None`
/// when the header is not an ELF header of either class.
pub open spec fn elf_is_compat(h: Seq<u8>) -> Option<bool> {
    if h.len() < 5 || h[0] != 0x7f || h[1] != 0x45 || h[2] != 0x4c || h[3] != 0x46 {
        None
    } else if h[4] == 1 {
        Some(true)
    } else if h[4] == 2 {
        Some(false)
    } else {
        None
    }
}

/// Tells a 32-bit executable from a 64-bit one by its ELF header.
pub fn is_compat_elf_header(header: &[u8]) -> (r: Option<bool>)
    ensures
        r == elf_is_compat(header@),
{
    if header.len() < 5 || header[0] != 0x7f || header[1] != 0x45 || header[2] != 0x4c
        || header[3] != 0x46 {
        None
    } else if header[4] == 1 {
        Some(true)
    } else if header[4] == 2 {
        Some(false)
    } else {
        None
    }
}

/// How many of the ancestors, nearest first, share the mount and network
/// namespaces of `own` without a break.
pub open spec fn root_depth(own: NamespaceInodes, ancestors: Seq<(Pid, NamespaceInodes)>) -> nat
    decreases ancestors.len(),
{
    if ancestors.len() == 0 || !same_mnt_and_net(own, ancestors[0].1) {
        0
    } else {
        1 + root_depth(own, ancestors.drop_first())
    }
}

/// The container root of `pid`: the outermost ancestor reached through
/// ancestors that all share its mount and network namespaces.
pub open spec fn root_of(pid: Pid, own: NamespaceInodes, ancestors: Seq<(Pid, NamespaceInodes)>) -> Pid {
    let d = root_depth(own, ancestors);
    if d == 0 {
        pid
    } else {
        ancestors[d - 1].0
    }
}

proof fn lemma_root_depth_bound(own: NamespaceInodes, ancestors: Seq<(Pid, NamespaceInodes)>)
    ensures
        root_depth(own, ancestors) <= ancestors.len(),
        forall|j: int|
            0 <= j < root_depth(own, ancestors) ==> same_mnt_and_net(own, ancestors[j].1),
        root_depth(own, ancestors) < ancestors.len() ==> !same_mnt_and_net(
            own,
            ancestors[root_depth(own, ancestors) as int].1,
        ),
    decreases ancestors.len(),
{
    if ancestors.len() > 0 && same_mnt_and_net(own, ancestors[0].1) {
        lemma_root_depth_bound(own, ancestors.drop_first());
        assert forall|j: int| 0 <= j < root_depth(own, ancestors) implies same_mnt_and_net(
            own,
            ancestors[j].1,
        ) by {
            if j > 0 {
                assert(ancestors[j] == ancestors.drop_first()[j - 1]);
            }
        }
    }
}

fn find_root(pid: Pid, own: &NamespaceInodes, ancestors: &Vec<(Pid, NamespaceInodes)>) -> (r: Pid)
    ensures
        r == root_of(pid, *own, ancestors@),
{
    let mut root = pid;
    let mut i: usize = 0;
    assert(ancestors@.subrange(0, ancestors@.len() as int) =~= ancestors@);
    while i < ancestors.len() && own.equal_mnt_and_net(&ancestors[i].1)
        invariant
            i <= ancestors@.len(),
            root_depth(*own, ancestors@) == i + root_depth(
                *own,
                ancestors@.subrange(i as int, ancestors@.len() as int),
            ),
            i == 0 ==> root == pid,
            i > 0 ==> root == ancestors@[i - 1].0,
        decreases ancestors@.len() - i,
    {
        proof {
            let rest = ancestors@.subrange(i as int, ancestors@.len() as int);
            assert(rest[0] == ancestors@[i as int]);
            assert(rest.drop_first() =~= ancestors@.subrange(i + 1, ancestors@.len() as int));
        }
        root = ancestors[i].0;
        i = i + 1;
    }
    proof {
        let rest = ancestors@.subrange(i as int, ancestors@.len() as int);
        if i < ancestors@.len() {
            assert(rest[0] == ancestors@[i as int]);
        }
        assert(root_depth(*own, rest) == 0);
    }
    root
}

/// The namespace directories of `pid`: its own, and that of its container
/// root among `ancestors` (its parent first, then the parent's parent, and so
/// on). For the daemon itself no walk is made.
pub fn get_namespaces(pid: Pid, own: NamespaceInodes, ancestors: &Vec<(Pid, NamespaceInodes)>) -> (r:
    Namespaces)
    ensures
        r.nspath@ == pid_path(pid) + "/ns"@,
        r.nsroot@ == match pid {
            Pid::SelfPid => pid_path(pid) + "/ns"@,
            Pid::Pid(_) => pid_path(root_of(pid, own, ancestors@)) + "/ns"@,
        },
        r.nsinodes == own,
{
    let root = match pid {
        Pid::SelfPid => pid,
        Pid::Pid(_) => find_root(pid, &own, ancestors),
    };
    Namespaces { nspath: ns_dir(pid), nsroot: ns_dir(root), nsinodes: own }
}

fn ns_dir(pid: Pid) -> (r: String)
    ensures
        r@ == pid_path(pid) + "/ns"@,
{
    let p = pid.path();
    let mut out = chars_of(p.as_str());
    push_str(&mut out, "/ns");
    string_of(&out)
}

/// The record of a process that opened the synthetic device, from its own
/// namespace inodes (`None` when `/proc/<pid>/ns` could not be read), those
/// of its ancestors (parent first), the daemon's own inodes, and its bitness
/// where it could be read (an unknown bitness counts as 64-bit). A process
/// whose namespaces could not be read is treated as living in the daemon's
/// namespaces. A 32-bit process counts as compat only where the 32-bit ABI
/// of the machine uses 32-bit time values (`compat_time_is_64bit` false).
pub fn get_requesting_process(
    pid: Pid,
    own: Option<NamespaceInodes>,
    daemon: NamespaceInodes,
    ancestors: &Vec<(Pid, NamespaceInodes)>,
    bitness: Option<bool>,
    compat_time_is_64bit: bool,
) -> (r: RequestingProcess)
    ensures
        r.nspath@ == pid_path(pid) + "/ns"@,
        own is None ==> r.namespaces == daemon && r.nsroot@ == pid_path(Pid::SelfPid) + "/ns"@,
        own matches Some(o) ==> r.namespaces == o && r.nsroot@ == match pid {
            Pid::SelfPid => pid_path(pid) + "/ns"@,
            Pid::Pid(_) => pid_path(root_of(pid, o, ancestors@)) + "/ns"@,
        },
        r.is_compat == (bitness == Some(true) && !compat_time_is_64bit),
{
    let is_compat = match bitness {
        Some(true) => !compat_time_is_64bit,
        _ => false,
    };
    match own {
        Some(o) => {
            let ns = get_namespaces(pid, o, ancestors);
            RequestingProcess {
                nspath: ns.nspath,
                nsroot: ns.nsroot,
                namespaces: ns.nsinodes,
                is_compat,
            }
        },
        None => RequestingProcess {
            nspath: ns_dir(pid),
            nsroot: ns_dir(Pid::SelfPid),
            namespaces: daemon,
            is_compat,
        },
    }
}

/// The container root shares the mount and network namespaces of the
/// process, and so does every ancestor up to it; the next ancestor, if any,
/// does not.
pub proof fn lemma_root_is_outermost(
    own: NamespaceInodes,
    ancestors: Seq<(Pid, NamespaceInodes)>,
)
    ensures
        forall|j: int|
            0 <= j < root_depth(own, ancestors) ==> same_mnt_and_net(own, ancestors[j].1),
        root_depth(own, ancestors) < ancestors.len() ==> !same_mnt_and_net(
            own,
            ancestors[root_depth(own, ancestors) as int].1,
        ),
{
    lemma_root_depth_bound(own, ancestors);
}

} // verus!
