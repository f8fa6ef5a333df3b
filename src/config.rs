//! Network settings and the paths of the data directory.
use vstd::prelude::*;

verus! {

/// The settings a server and its clients read at start.
#[derive(Clone, Debug, Default)]
pub struct Config {
    pub network: Network,
}

impl Config {
    pub fn network(&self) -> (r: &Network)
        ensures
            *r == self.network,
    {
        &self.network
    }
}

/// Where the server listens and where clients reach it.
#[derive(Clone, Debug, Default)]
pub struct Network {
    pub remote_ip: Option<String>,
    pub local_ip: String,
    pub port: String,
}

/// The value of a string of decimal digits.
pub open spec fn digits_value(s: Seq<char>) -> int
    decreases s.len(),
{
    if s.len() == 0 {
        0
    } else {
        digits_value(s.drop_last()) * 10 + (s.last() as int - '0' as int)
    }
}

pub open spec fn is_digit(c: char) -> bool {
    '0' <= c <= '9'
}

pub open spec fn all_digits(s: Seq<char>) -> bool {
    forall|i: int| 0 <= i < s.len() ==> is_digit(#[trigger] s[i])
}

/// The digits of a port number: the text after an optional leading `+`.
pub open spec fn port_digits(s: Seq<char>) -> Seq<char> {
    if s.len() > 0 && s[0] == '+' {
        s.drop_first()
    } else {
        s
    }
}

/// A port number as decimal text: an optional `+` and at least one digit,
/// of value at most 65535.
pub open spec fn parse_port(s: Seq<char>) -> Option<u16> {
    let d = port_digits(s);
    if d.len() > 0 && all_digits(d) && digits_value(d) <= 65535 {
        Some(digits_value(d) as u16)
    } else {
        None
    }
}

proof fn lemma_digits_value_nonneg(s: Seq<char>)
    requires
        all_digits(s),
    ensures
        digits_value(s) >= 0,
    decreases s.len(),
{
    if s.len() > 0 {
        lemma_digits_value_nonneg(s.drop_last());
    }
}

/// A longer run of digits is worth at least as much as its prefix.
proof fn lemma_digits_value_prefix(s: Seq<char>, i: int)
    requires
        all_digits(s),
        0 <= i <= s.len(),
    ensures
        digits_value(s.subrange(0, i)) <= digits_value(s),
    decreases s.len() - i,
{
    if i < s.len() {
        let p = s.subrange(0, i + 1);
        assert(p.drop_last() =~= s.subrange(0, i));
        assert(is_digit(p.last()));
        lemma_digits_value_nonneg(s.subrange(0, i));
        lemma_digits_value_prefix(s, i + 1);
    } else {
        assert(s.subrange(0, i) =~= s);
    }
}

impl Network {
    pub fn local_ip(&self) -> (r: &String)
        ensures
            *r == self.local_ip,
    {
        &self.local_ip
    }

    /// The address clients use: the remote one when set, else the local one.
    pub fn remote_ip(&self) -> (r: &String)
        ensures
            *r == match self.remote_ip {
                Some(ip) => ip,
                None => self.local_ip,
            },
    {
        if let Some(remote_ip) = &self.remote_ip {
            remote_ip
        } else {
            &self.local_ip
        }
    }

    pub fn port(&self) -> (r: &String)
        ensures
            *r == self.port,
    {
        &self.port
    }

    /// The port as a number, or `None` when it is not decimal text for a
    /// value that fits in 16 bits.
    pub fn port_as_u16(&self) -> (r: Option<u16>)
        ensures
            r == parse_port(self.port@),
    {
        let text = self.port.as_str();
        let len = text.unicode_len();
        let mut start: usize = 0;
        if len > 0 && text.get_char(0) == '+' {
            start = 1;
        }
        let ghost d = port_digits(text@);
        proof {
            if start == 1 {
                assert(d =~= text@.subrange(1, len as int));
            } else {
                assert(d =~= text@.subrange(0, len as int));
            }
        }
        if start == len {
            return None;
        }
        let mut value: u32 = 0;
        let mut i: usize = start;
        while i < len
            invariant
                start <= i <= len,
                len == text@.len(),
                text@ == self.port@,
                d == port_digits(text@),
                d == text@.subrange(start as int, len as int),
                value == digits_value(d.subrange(0, i - start)),
                value <= 65535,
                all_digits(d.subrange(0, i - start)),
            decreases len - i,
        {
            let c = text.get_char(i);
            let ghost p = d.subrange(0, i - start + 1);
            proof {
                assert(d[i - start] == text@[i as int]);
                assert(p.drop_last() =~= d.subrange(0, i - start));
                assert(p.last() == c);
            }
            if !('0' <= c && c <= '9') {
                proof {
                    assert(!is_digit(d[i - start]));
                    assert(!all_digits(d));
                    assert(parse_port(self.port@) is None);
                }
                return None;
            }
            value = value * 10 + (c as u32 - '0' as u32);
            if value > 65535 {
                proof {
                    assert(all_digits(p));
                    assert(value == digits_value(p));
                    if all_digits(d) {
                        lemma_digits_value_prefix(d, i - start + 1);
                        assert(digits_value(d) > 65535);
                    }
                    assert(parse_port(self.port@) is None);
                }
                return None;
            }
            i = i + 1;
            proof {
                assert(all_digits(p));
            }
        }
        proof {
            assert(d.subrange(0, i - start) =~= d);
        }
        Some(value as u16)
    }
}

/// The name of the data directory under the home directory.
pub open spec fn root_dir_name() -> Seq<char> {
    seq!['.', 'r', 'e', 'm', 'i', 'n', 'd', 'y']
}

/// The name of the store's file in the data directory.
pub open spec fn db_file_name() -> Seq<char> {
    seq!['r', 'e', 'm', 'i', 'n', 'd', 'e', 'r', 's', '.', 'j', 's', 'o', 'n']
}

/// `name` appended to `base` as one more path component: a separator goes
/// between them unless `base` is empty or already ends in one.
pub open spec fn joined(base: Seq<char>, name: Seq<char>) -> Seq<char> {
    if base.len() == 0 || base.last() == '/' {
        base + name
    } else {
        base + seq!['/'] + name
    }
}

/// Appends `name` to `base` as one more path component.
pub fn join_path(base: &str, name: &str) -> (r: String)
    ensures
        r@ == joined(base@, name@),
{
    let mut r = base.to_owned();
    let len = base.unicode_len();
    if len > 0 && base.get_char(len - 1) != '/' {
        proof {
            reveal_strlit("/");
        }
        r.append("/");
    }
    r.append(name);
    r
}

/// The data directory: `.remindy` in the home directory, or `Err` when the
/// home directory is not known.
pub fn root_path(home_dir: Option<&str>) -> (r: Result<String, ()>)
    ensures
        home_dir is None ==> r is Err,
        home_dir matches Some(h) ==> r matches Ok(p) && p@ == joined(h@, root_dir_name()),
{
    match home_dir {
        None => Err(()),
        Some(home) => {
            proof {
                reveal_strlit(".remindy");
            }
            let r = join_path(home, ".remindy");
            assert(".remindy"@ =~= root_dir_name());
            Ok(r)
        },
    }
}

/// The store's file: `reminders.json` in the data directory.
pub fn db_file_path(home_dir: Option<&str>) -> (r: Result<String, ()>)
    ensures
        home_dir is None ==> r is Err,
        home_dir matches Some(h) ==> r matches Ok(p) && p@ == joined(
            joined(h@, root_dir_name()),
            db_file_name(),
        ),
{
    match root_path(home_dir) {
        Err(()) => Err(()),
        Ok(root) => {
            proof {
                reveal_strlit("reminders.json");
            }
            let r = join_path(root.as_str(), "reminders.json");
            assert("reminders.json"@ =~= db_file_name());
            Ok(r)
        },
    }
}

} // verus!
