//! Ownership of the Looking Glass shared-memory file: which desktop user
//! it goes to, and that user's ids from `/etc/passwd` and `/etc/group`.
use vstd::prelude::*;
use crate::config::LookingGlassConfig;
use crate::fmt::{parse_unsigned, parse_unsigned_exec};
use crate::text::{chars_eq, chars_of, lit, seqs_of, split_on, split_on_exec, string_of, trim, trim_chars};

verus! {

/// Environment variables that may name the desktop user, in the order
/// they are consulted.
pub fn desktop_user_vars() -> (r: Vec<&'static str>)
    ensures
        r@.len() == 4,
        r@[0]@ == "SUDO_USER"@,
        r@[1]@ == "DOAS_USER"@,
        r@[2]@ == "USER"@,
        r@[3]@ == "LOGNAME"@,
{
    let mut v: Vec<&'static str> = Vec::new();
    v.push("SUDO_USER");
    v.push("DOAS_USER");
    v.push("USER");
    v.push("LOGNAME");
    v
}

/// The first value, trimmed, that is neither empty nor "root".
pub open spec fn desktop_user(vals: Seq<Option<Seq<char>>>) -> Option<Seq<char>>
    decreases vals.len(),
{
    if vals.len() == 0 {
        None
    } else {
        match vals[0] {
            Some(v) => if trim(v).len() > 0 && trim(v) != "root"@ {
                Some(trim(v))
            } else {
                desktop_user(vals.drop_first())
            },
            None => desktop_user(vals.drop_first()),
        }
    }
}

pub open spec fn opt_views(v: Seq<Option<String>>) -> Seq<Option<Seq<char>>> {
    v.map_values(
        |o: Option<String>|
            match o {
                Some(s) => Some(s@),
                None => None,
            },
    )
}

/// The desktop user from the values of `desktop_user_vars` (unset ones
/// `None`): the session user that invoked the daemon through sudo or doas.
pub fn detect_desktop_username(vals: &Vec<Option<String>>) -> (r: Option<String>)
    ensures
        match desktop_user(opt_views(vals@)) {
            Some(u) => r matches Some(s) && s@ == u,
            None => r is None,
        },
{
    let ghost all = opt_views(vals@);
    let root = chars_of("root");
    let mut i: usize = 0;
    assert(all.skip(0) =~= all);
    while i < vals.len()
        invariant
            i <= vals@.len(),
            all == opt_views(vals@),
            root@ == "root"@,
            desktop_user(all) == desktop_user(all.skip(i as int)),
        decreases vals@.len() - i,
    {
        assert(all.skip(i as int).drop_first() =~= all.skip(i + 1));
        assert(all.skip(i as int)[0] == all[i as int]);
        match &vals[i] {
            Some(v) => {
                let t = crate::text::trim_str(v.as_str());
                if t.len() > 0 && !chars_eq(t.as_slice(), root.as_slice()) {
                    return Some(string_of(t.as_slice()));
                }
            },
            None => {},
        }
        i = i + 1;
    }
    None
}

/// A line that counts: trimmed, neither empty nor a comment.
pub open spec fn is_entry(l: Seq<char>) -> bool {
    trim(l).len() > 0 && trim(l)[0] != '#'
}

/// uid and primary gid of `user` from passwd text: the first entry line
/// with at least four fields whose first field is the name; `None` when
/// there is none or its ids do not parse.
pub open spec fn passwd_lookup(lines: Seq<Seq<char>>, user: Seq<char>) -> Option<(u32, u32)>
    decreases lines.len(),
{
    if lines.len() == 0 {
        None
    } else {
        let p = split_on(trim(lines[0]), ':');
        if !is_entry(lines[0]) || p.len() < 4 || p[0] != user {
            passwd_lookup(lines.drop_first(), user)
        } else {
            match (parse_unsigned(p[2], 10, u32::MAX as nat), parse_unsigned(p[3], 10, u32::MAX as nat)) {
                (Some(u), Some(g)) => Some((u as u32, g as u32)),
                _ => None,
            }
        }
    }
}

/// gid of `group` from group text: the first entry line with at least
/// three fields whose first field is the name.
pub open spec fn group_lookup(lines: Seq<Seq<char>>, group: Seq<char>) -> Option<u32>
    decreases lines.len(),
{
    if lines.len() == 0 {
        None
    } else {
        let p = split_on(trim(lines[0]), ':');
        if !is_entry(lines[0]) || p.len() < 3 || p[0] != group {
            group_lookup(lines.drop_first(), group)
        } else {
            match parse_unsigned(p[2], 10, u32::MAX as nat) {
                Some(g) => Some(g as u32),
                None => None,
            }
        }
    }
}

fn entry_fields(line: &Vec<char>) -> (r: Option<Vec<Vec<char>>>)
    ensures
        !is_entry(line@) ==> r is None,
        is_entry(line@) ==> (r matches Some(p) && seqs_of(p@) == split_on(trim(line@), ':')),
{
    let t = trim_chars(line.as_slice());
    if t.len() == 0 || t[0] == '#' {
        return None;
    }
    Some(split_on_exec(t.as_slice(), ':'))
}

/// Look `username` up in the text of `/etc/passwd`.
pub fn lookup_user(passwd: &str, username: &str) -> (r: Option<(u32, u32)>)
    ensures
        r == passwd_lookup(split_on(passwd@, '\n'), username@),
{
    let lines = split_on_exec(chars_of(passwd).as_slice(), '\n');
    let ghost all = seqs_of(lines@);
    let name = chars_of(username);
    let mut i: usize = 0;
    assert(all.skip(0) =~= all);
    while i < lines.len()
        invariant
            i <= lines@.len(),
            all == seqs_of(lines@),
            all == split_on(passwd@, '\n'),
            name@ == username@,
            passwd_lookup(all, username@) == passwd_lookup(all.skip(i as int), username@),
        decreases lines@.len() - i,
    {
        assert(all.skip(i as int).drop_first() =~= all.skip(i + 1));
        assert(all.skip(i as int)[0] == lines@[i as int]@);
        match entry_fields(&lines[i]) {
            Some(p) => {
                if p.len() >= 4 && chars_eq(p[0].as_slice(), name.as_slice()) {
                    assert(seqs_of(p@)[0] == p@[0]@ && seqs_of(p@)[2] == p@[2]@ && seqs_of(p@)[3]
                        == p@[3]@);
                    let uid = parse_unsigned_exec(p[2].as_slice(), 10, 0xffff_ffff);
                    let gid = parse_unsigned_exec(p[3].as_slice(), 10, 0xffff_ffff);
                    return match (uid, gid) {
                        (Some(u), Some(g)) => Some((u as u32, g as u32)),
                        _ => None,
                    };
                }
                proof {
                    if p@.len() >= 4 {
                        assert(seqs_of(p@)[0] == p@[0]@);
                    }
                }
            },
            None => {},
        }
        i = i + 1;
    }
    None
}

/// Look `group_name` up in the text of `/etc/group`.
pub fn lookup_group(group: &str, group_name: &str) -> (r: Option<u32>)
    ensures
        r == group_lookup(split_on(group@, '\n'), group_name@),
{
    let lines = split_on_exec(chars_of(group).as_slice(), '\n');
    let ghost all = seqs_of(lines@);
    let name = chars_of(group_name);
    let mut i: usize = 0;
    assert(all.skip(0) =~= all);
    while i < lines.len()
        invariant
            i <= lines@.len(),
            all == seqs_of(lines@),
            all == split_on(group@, '\n'),
            name@ == group_name@,
            group_lookup(all, group_name@) == group_lookup(all.skip(i as int), group_name@),
        decreases lines@.len() - i,
    {
        assert(all.skip(i as int).drop_first() =~= all.skip(i + 1));
        assert(all.skip(i as int)[0] == lines@[i as int]@);
        match entry_fields(&lines[i]) {
            Some(p) => {
                if p.len() >= 3 && chars_eq(p[0].as_slice(), name.as_slice()) {
                    assert(seqs_of(p@)[0] == p@[0]@ && seqs_of(p@)[2] == p@[2]@);
                    return match parse_unsigned_exec(p[2].as_slice(), 10, 0xffff_ffff) {
                        Some(g) => Some(g as u32),
                        None => None,
                    };
                }
                proof {
                    if p@.len() >= 3 {
                        assert(seqs_of(p@)[0] == p@[0]@);
                    }
                }
            },
            None => {},
        }
        i = i + 1;
    }
    None
}

/// The owner of the shared-memory file: the user's uid with the `kvm`
/// group when it exists, else the user's primary group.
pub fn shm_owner(user: (u32, u32), kvm_gid: Option<u32>) -> (r: (u32, u32))
    ensures
        r.0 == user.0,
        r.1 == match kvm_gid {
            Some(g) => g,
            None => user.1,
        },
{
    match kvm_gid {
        Some(g) => (user.0, g),
        None => (user.0, user.1),
    }
}

/// The Looking Glass file to prepare: its path and size in bytes; nothing
/// when Looking Glass is absent or sized zero.
pub fn looking_glass_shm(lg: &Option<LookingGlassConfig>) -> (r: Option<(String, u64)>)
    requires
        lg matches Some(c) ==> c.mem_mb * 1048576 <= u64::MAX,
    ensures
        match *lg {
            Some(c) => if c.mem_mb == 0 {
                r is None
            } else {
                r matches Some((p, b)) && p@ == c.shm_name@ && b == c.mem_mb * 1048576
            },
            None => r is None,
        },
{
    match lg {
        Some(c) => {
            if c.mem_mb == 0 {
                None
            } else {
                Some((lit(c.shm_name.as_str()), c.mem_mb * 1024 * 1024))
            }
        },
        None => None,
    }
}

} // verus!
