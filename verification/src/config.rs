//! The two immutable stores built at startup: the credential store
//! (username to password hash) and the per-user authorization policy, plus
//! the parser for the line-oriented credential text.

use vstd::prelude::*;

use crate::error::ProxyError;
use crate::text::find_char;
use crate::text::find_char_str;
use crate::text::lemma_find_char;
use crate::text::spec_decimal;
use crate::text::spec_trim;
use crate::text::str_eq;
use crate::text::trim_str;
use crate::text::u64_to_string;

verus! {

/// The calls one user may make: exact "package.Service/Method" strings or
/// the wildcard "*".
#[derive(Debug)]
pub struct UserConfig {
    pub allowed_calls: Vec<String>,
}

impl View for UserConfig {
    type V = Seq<Seq<char>>;

    open spec fn view(&self) -> Seq<Seq<char>> {
        Seq::new(self.allowed_calls@.len(), |i: int| self.allowed_calls@[i]@)
    }
}

/// The proxy configuration: addresses as text (parsed by the caller that
/// binds sockets) and the per-user authorization policy.
#[derive(Debug)]
pub struct Config {
    pub listen_address: String,
    pub upstream_address: String,
    pub metrics_address: String,
    pub users: Vec<(String, UserConfig)>,
}

impl View for Config {
    type V = Seq<(Seq<char>, Seq<Seq<char>>)>;

    open spec fn view(&self) -> Seq<(Seq<char>, Seq<Seq<char>>)> {
        Seq::new(self.users@.len(), |i: int| (self.users@[i].0@, self.users@[i].1@))
    }
}

/// The credential store: username to password-hash pairs. A later entry for
/// the same username overrides an earlier one, as a map loaded line by line
/// would behave.
#[derive(Debug)]
pub struct Credentials {
    pub users: Vec<(String, String)>,
}

impl View for Credentials {
    type V = Seq<(Seq<char>, Seq<char>)>;

    open spec fn view(&self) -> Seq<(Seq<char>, Seq<char>)> {
        Seq::new(self.users@.len(), |i: int| (self.users@[i].0@, self.users@[i].1@))
    }
}

/// The value bound to a key among association pairs, the latest pair
/// winning; `None` when no pair has the key.
pub open spec fn spec_lookup<V>(entries: Seq<(Seq<char>, V)>, name: Seq<char>) -> Option<V>
    decreases entries.len(),
{
    if entries.len() == 0 {
        None
    } else if entries.last().0 == name {
        Some(entries.last().1)
    } else {
        spec_lookup(entries.drop_last(), name)
    }
}

impl Credentials {
    /// A store with no users, for running with authentication disabled.
    pub fn empty() -> (r: Self)
        ensures
            r@.len() == 0,
    {
        Credentials { users: Vec::new() }
    }

    /// The stored hash for a username, if any.
    pub fn lookup(&self, name: &str) -> (r: Option<&String>)
        ensures
            match r {
                Some(h) => spec_lookup(self@, name@) == Some(h@),
                None => spec_lookup(self@, name@) is None,
            },
    {
        let mut i: usize = self.users.len();
        proof {
            assert(self@.take(self.users@.len() as int) =~= self@);
        }
        while i > 0
            invariant
                0 <= i <= self.users@.len(),
                spec_lookup(self@, name@) == spec_lookup(self@.take(i as int), name@),
            decreases i,
        {
            i -= 1;
            proof {
                assert(self@.take(i + 1).last() == self@[i as int]);
                assert(self@.take(i + 1).drop_last() =~= self@.take(i as int));
            }
            if str_eq(self.users[i].0.as_str(), name) {
                return Some(&self.users[i].1);
            }
        }
        proof {
            assert(self@.take(0) =~= Seq::<(Seq<char>, Seq<char>)>::empty());
        }
        None
    }
}

impl Config {
    /// The policy entry for a username, if any.
    pub fn lookup_user(&self, name: &str) -> (r: Option<&UserConfig>)
        ensures
            match r {
                Some(u) => spec_lookup(self@, name@) == Some(u@),
                None => spec_lookup(self@, name@) is None,
            },
    {
        let mut i: usize = self.users.len();
        proof {
            assert(self@.take(self.users@.len() as int) =~= self@);
        }
        while i > 0
            invariant
                0 <= i <= self.users@.len(),
                spec_lookup(self@, name@) == spec_lookup(self@.take(i as int), name@),
            decreases i,
        {
            i -= 1;
            proof {
                assert(self@.take(i + 1).last() == self@[i as int]);
                assert(self@.take(i + 1).drop_last() =~= self@.take(i as int));
            }
            if str_eq(self.users[i].0.as_str(), name) {
                return Some(&self.users[i].1);
            }
        }
        proof {
            assert(self@.take(0) =~= Seq::<(Seq<char>, Seq<Seq<char>>)>::empty());
        }
        None
    }
}

/// A line that the credential parser passes over: blank once trimmed, or a
/// comment.
pub open spec fn line_skipped(line: Seq<char>) -> bool {
    let t = spec_trim(line);
    t.len() == 0 || t[0] == '#'
}

/// The entry a credential line holds: the text before the first `:` and the
/// text after it, both of the trimmed line; `None` when no `:` occurs.
pub open spec fn line_entry(line: Seq<char>) -> Option<(Seq<char>, Seq<char>)> {
    let t = spec_trim(line);
    let k = find_char(t, ':');
    if 0 <= k < t.len() {
        Some((t.take(k), t.skip(k + 1)))
    } else {
        None
    }
}

/// The first line of a text (without its newline) and what follows it.
pub open spec fn first_line(s: Seq<char>) -> (Seq<char>, Seq<char>) {
    let k = find_char(s, '\n');
    if 0 <= k < s.len() {
        (s.take(k), s.skip(k + 1))
    } else {
        (s, Seq::empty())
    }
}

/// The credential entries a text holds, line by line and in order, or the
/// number of the first line that is neither blank, comment, nor
/// `username:hash`.
pub open spec fn spec_parse_credentials(s: Seq<char>, line_no: nat) -> Result<
    Seq<(Seq<char>, Seq<char>)>,
    nat,
>
    decreases s.len(),
{
    if s.len() == 0 {
        Ok(Seq::empty())
    } else {
        let (line, rest) = first_line(s);
        if line_skipped(line) {
            spec_parse_credentials(rest, (line_no + 1) as nat)
        } else {
            match line_entry(line) {
                None => Err(line_no),
                Some(entry) => match spec_parse_credentials(rest, (line_no + 1) as nat) {
                    Err(e) => Err(e),
                    Ok(entries) => Ok(seq![entry] + entries),
                },
            }
        }
    }
}

/// Parses line-oriented credential text: one `username:hash` per line,
/// blank lines and `#` comments ignored, split on the first `:` only.
pub fn parse_credentials(content: &str) -> (r: Result<Credentials, ProxyError>)
    requires
        content@.len() < usize::MAX,
    ensures
        match r {
            Ok(c) => spec_parse_credentials(content@, 1) == Ok::<_, nat>(c@),
            Err(e) => {
                &&& spec_parse_credentials(content@, 1) matches Err(line)
                &&& e matches ProxyError::CredentialsLoad(d)
                &&& (spec_parse_credentials(content@, 1) matches Err(line) ==> d@ == "line "@
                    + spec_decimal(line) + ": expected 'username:argon2_hash' format"@)
            },
        },
{
    let mut users: Vec<(String, String)> = Vec::new();
    let mut rest: &str = content;
    let mut rest_len = content.unicode_len();
    let mut line_no: usize = 1;
    let ghost full = content@;
    loop
        invariant
            full == content@,
            rest_len == rest@.len(),
            line_no >= 1,
            full.len() < usize::MAX,
            line_no + rest@.len() <= full.len() + 1,
            (match spec_parse_credentials(rest@, line_no as nat) {
                Ok(entries) => spec_parse_credentials(full, 1) == Ok::<_, nat>(
                    entries_of(users@) + entries,
                ),
                Err(e) => spec_parse_credentials(full, 1) == Err::<Seq<(Seq<char>, Seq<char>)>,
                    _,
                >(e),
            }),
        ensures
            rest@.len() == 0,
            (match spec_parse_credentials(rest@, line_no as nat) {
                Ok(entries) => spec_parse_credentials(full, 1) == Ok::<_, nat>(
                    entries_of(users@) + entries,
                ),
                Err(e) => spec_parse_credentials(full, 1) == Err::<Seq<(Seq<char>, Seq<char>)>,
                    _,
                >(e),
            }),
        decreases rest@.len(),
    {
        if rest_len == 0 {
            break;
        }
        let ghost before = rest@;
        proof {
            lemma_find_char(before, '\n');
        }
        let (line, new_rest, new_rest_len): (&str, &str, usize) = match find_char_str(rest, '\n') {
            Some(k) => (
                rest.substring_char(0, k),
                rest.substring_char(k + 1, rest_len),
                rest_len - (k + 1),
            ),
            None => (rest, rest.substring_char(rest_len, rest_len), 0),
        };
        proof {
            let k = find_char(before, '\n');
            if 0 <= k < before.len() {
                assert(line@ =~= before.take(k));
                assert(new_rest@ =~= before.skip(k + 1));
            } else {
                assert(line@ =~= before);
                assert(new_rest@ =~= Seq::<char>::empty());
            }
            assert(first_line(before).0 == line@);
            assert(first_line(before).1 == new_rest@);
            lemma_entries_step(before, line@, new_rest@, line_no as nat);
        }
        let trimmed = trim_str(line);
        let trimmed_len = trimmed.unicode_len();
        let skip = trimmed_len == 0 || trimmed.get_char(0) == '#';
        if !skip {
            assert(!line_skipped(line@));
            match find_char_str(trimmed, ':') {
                None => {
                    proof {
                        lemma_find_char(trimmed@, ':');
                        assert(line_entry(line@) is None);
                        assert(spec_parse_credentials(before, line_no as nat) == Err::<
                            Seq<(Seq<char>, Seq<char>)>,
                            nat,
                        >(line_no as nat));
                    }
                    let msg = String::from_str("line ").concat(
                        u64_to_string(line_no as u64).as_str(),
                    ).concat(": expected 'username:argon2_hash' format");
                    proof {
                        assert(msg@ =~= "line "@ + spec_decimal(line_no as nat)
                            + ": expected 'username:argon2_hash' format"@);
                    }
                    return Err(ProxyError::CredentialsLoad(msg));
                },
                Some(k) => {
                    proof {
                        lemma_find_char(trimmed@, ':');
                    }
                    let name = String::from_str(trimmed.substring_char(0, k));
                    let hash = String::from_str(trimmed.substring_char(k + 1, trimmed_len));
                    let ghost old_users = users@;
                    proof {
                        assert(name@ =~= spec_trim(line@).take(k as int));
                        assert(hash@ =~= spec_trim(line@).skip(k + 1));
                        assert(line_entry(line@) == Some::<(Seq<char>, Seq<char>)>(
                            (name@, hash@),
                        ));
                    }
                    users.push((name, hash));
                    proof {
                        assert(entries_of(users@) =~= entries_of(old_users).push(
                            line_entry(line@).unwrap(),
                        ));
                        match spec_parse_credentials(new_rest@, line_no as nat + 1) {
                            Ok(entries) => {
                                assert(entries_of(old_users) + (seq![line_entry(line@).unwrap()]
                                    + entries) =~= entries_of(users@) + entries);
                            },
                            Err(_) => {},
                        }
                    }
                },
            }
        }
        rest = new_rest;
        rest_len = new_rest_len;
        line_no = line_no + 1;
    }
    proof {
        assert(rest@ =~= Seq::<char>::empty());
        assert(spec_parse_credentials(rest@, line_no as nat) == Ok::<_, nat>(
            Seq::<(Seq<char>, Seq<char>)>::empty(),
        ));
        assert(entries_of(users@) + Seq::<(Seq<char>, Seq<char>)>::empty() =~= entries_of(
            users@,
        ));
    }
    let c = Credentials { users };
    proof {
        assert(c@ =~= entries_of(c.users@));
    }
    Ok(c)
}

/// The views of a vector of name/value string pairs.
pub open spec fn entries_of(users: Seq<(String, String)>) -> Seq<(Seq<char>, Seq<char>)> {
    Seq::new(users.len(), |i: int| (users[i].0@, users[i].1@))
}

proof fn lemma_entries_step(s: Seq<char>, line: Seq<char>, rest: Seq<char>, line_no: nat)
    requires
        s.len() > 0,
        first_line(s) == (line, rest),
    ensures
        line_skipped(line) ==> spec_parse_credentials(s, line_no) == spec_parse_credentials(
            rest,
            line_no + 1,
        ),
        !line_skipped(line) && line_entry(line) is Some ==> spec_parse_credentials(s, line_no)
            == (match spec_parse_credentials(rest, line_no + 1) {
            Err(e) => Err::<Seq<(Seq<char>, Seq<char>)>, nat>(e),
            Ok(entries) => Ok(seq![line_entry(line).unwrap()] + entries),
        }),
        !line_skipped(line) && line_entry(line) is None ==> spec_parse_credentials(s, line_no)
            == Err::<Seq<(Seq<char>, Seq<char>)>, nat>(line_no),
{
}

} // verus!
