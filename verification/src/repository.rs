//! Identifiers for repositories: an organization and a repository name,
//! written `organization/name`.

use vstd::prelude::*;

verus! {

/// How many separator characters a piece of text holds.
pub open spec fn separator_count(s: Seq<char>) -> nat
    decreases s,
{
    if s.len() == 0 {
        0
    } else {
        separator_count(s.drop_last()) + if s.last() == '/' {
            1nat
        } else {
            0nat
        }
    }
}

/// The index of the first separator in a piece of text, or `-1` where none
/// stands.
pub open spec fn first_separator(s: Seq<char>) -> int
    decreases s,
{
    if s.len() == 0 {
        -1
    } else {
        let before = first_separator(s.drop_last());
        if before >= 0 {
            before
        } else if s.last() == '/' {
            s.len() - 1
        } else {
            -1
        }
    }
}

/// A parse error related to an [`Identifier`].
#[derive(Debug)]
pub enum ParseError {
    /// Attempted to parse an [`Identifier`] from an invalid format.
    InvalidFormat(String),
}

impl ParseError {
    /// The error rendered as text.
    pub fn message(&self) -> (r: String)
        ensures
            match self {
                ParseError::InvalidFormat(v) => r@ == "invalid format: "@ + v@,
            },
    {
        match self {
            ParseError::InvalidFormat(v) => {
                let prefix: String = "invalid format: ".to_owned();
                prefix.concat(v.as_str())
            },
        }
    }
}

/// An error related to an [`Identifier`].
#[derive(Debug)]
pub enum Error {
    /// A parse error.
    Parse(ParseError),
}

impl Error {
    /// The error rendered as text.
    pub fn message(&self) -> (r: String)
        ensures
            match self {
                Error::Parse(ParseError::InvalidFormat(v)) => r@ == "parse error: invalid format: "@
                    + v@,
            },
    {
        match self {
            Error::Parse(e) => {
                let prefix: String = "parse error: ".to_owned();
                let rest = e.message();
                proof {
                    reveal_strlit("parse error: ");
                    reveal_strlit("parse error: invalid format: ");
                    reveal_strlit("invalid format: ");
                    match self {
                        Error::Parse(ParseError::InvalidFormat(v)) => {
                            assert(prefix@ + ("invalid format: "@ + v@)
                                =~= "parse error: invalid format: "@ + v@);
                        },
                    }
                }
                prefix.concat(rest.as_str())
            },
        }
    }
}

/// A repository identifier: an organization and a repository name.
#[derive(Clone, Debug, Eq, Hash, Ord, PartialEq, PartialOrd)]
pub struct Identifier {
    /// The organization of the repository identifier.
    pub organization: String,
    /// The name of the repository identifier.
    pub name: String,
}

impl Identifier {
    /// Gets the repository name of this [`Identifier`] by reference.
    pub fn name(&self) -> (r: &str)
        ensures
            r@ == self.name@,
    {
        self.name.as_str()
    }

    /// Gets the organization name of this [`Identifier`] by reference.
    pub fn organization(&self) -> (r: &str)
        ensures
            r@ == self.organization@,
    {
        self.organization.as_str()
    }

    /// Parses an identifier from `organization/name` text.
    ///
    /// Succeeds exactly where the text holds one separator; the
    /// organization is what stands before it and the name what stands
    /// after it.
    pub fn from_str(s: &str) -> (r: Result<Identifier, Error>)
        ensures
            match r {
                Ok(id) => separator_count(s@) == 1 && {
                    let k = first_separator(s@);
                    0 <= k < s@.len() && id.organization@ == s@.take(k) && id.name@ == s@.skip(
                        k + 1,
                    )
                },
                Err(e) => separator_count(s@) != 1 && match e {
                    Error::Parse(ParseError::InvalidFormat(v)) => v@ == s@,
                },
            },
    {
        let n = s.unicode_len();
        let mut count: usize = 0;
        let mut first: usize = n;
        proof {
            assert(s@.take(0) =~= Seq::<char>::empty());
        }
        let mut i: usize = 0;
        while i < n
            invariant
                i <= n,
                n == s@.len(),
                count == separator_count(s@.take(i as int)),
                first_separator(s@.take(i as int)) == if first == n {
                    -1
                } else {
                    first as int
                },
                first == n || first < i,
                count <= i,
            decreases n - i,
        {
            proof {
                assert(s@.take(i + 1).drop_last() =~= s@.take(i as int));
                assert(s@.take(i + 1).last() == s@[i as int]);
                lemma_no_separator(s@.take(i as int));
            }
            let c = s.get_char(i);
            if c == '/' {
                if count == 0 {
                    first = i;
                }
                count = count + 1;
            }
            i = i + 1;
        }
        proof {
            assert(s@.take(n as int) =~= s@);
        }
        if count != 1 {
            return Err(Error::Parse(ParseError::InvalidFormat(s.to_owned())));
        }
        proof {
            lemma_no_separator(s@);
        }
        let organization = s.substring_char(0, first).to_owned();
        let name = s.substring_char(first + 1, n).to_owned();
        proof {
            assert(s@.subrange(0, first as int) =~= s@.take(first as int));
            assert(s@.subrange(first + 1, n as int) =~= s@.skip(first + 1));
        }
        Ok(Identifier { organization, name })
    }

    /// Parses an identifier at the first separator: the organization is
    /// what stands before it, the name everything after it, however many
    /// further separators the name holds. `None` where no separator
    /// stands.
    pub fn from_split(s: &str) -> (r: Option<Identifier>)
        ensures
            match r {
                Some(id) => {
                    let k = first_separator(s@);
                    0 <= k < s@.len() && id.organization@ == s@.take(k) && id.name@ == s@.skip(
                        k + 1,
                    )
                },
                None => first_separator(s@) == -1,
            },
    {
        let n = s.unicode_len();
        proof {
            assert(s@.take(0) =~= Seq::<char>::empty());
        }
        let mut i: usize = 0;
        while i < n
            invariant
                i <= n,
                n == s@.len(),
                first_separator(s@.take(i as int)) == -1,
            decreases n - i,
        {
            proof {
                assert(s@.take(i + 1).drop_last() =~= s@.take(i as int));
                assert(s@.take(i + 1).last() == s@[i as int]);
            }
            let c = s.get_char(i);
            if c == '/' {
                proof {
                    lemma_first_separator_extend(s@, i as int);
                    assert(s@.subrange(0, i as int) =~= s@.take(i as int));
                    assert(s@.subrange(i + 1, n as int) =~= s@.skip(i + 1));
                }
                let organization = s.substring_char(0, i).to_owned();
                let name = s.substring_char(i + 1, n).to_owned();
                return Some(Identifier { organization, name });
            }
            i = i + 1;
        }
        proof {
            assert(s@.take(n as int) =~= s@);
        }
        None
    }

    /// The identifier rendered as `organization/name`.
    pub fn display_string(&self) -> (r: String)
        ensures
            r@ == self.organization@ + seq!['/'] + self.name@,
    {
        let mut out = self.organization.clone();
        out.append("/");
        out.append(self.name.as_str());
        proof {
            reveal_strlit("/");
            assert("/"@ =~= seq!['/']);
        }
        out
    }
}

/// A text holds no separator exactly where it has no first separator.
proof fn lemma_no_separator(s: Seq<char>)
    ensures
        (first_separator(s) == -1) <==> (separator_count(s) == 0),
    decreases s,
{
    if s.len() > 0 {
        lemma_no_separator(s.drop_last());
    }
}

/// Where a prefix of a text holds no separator and the next character is
/// one, that character is the text's first separator.
proof fn lemma_first_separator_extend(s: Seq<char>, i: int)
    requires
        0 <= i < s.len(),
        first_separator(s.take(i)) == -1,
        s[i] == '/',
    ensures
        first_separator(s) == i,
    decreases s.len(),
{
    if s.len() - 1 > i {
        assert(s.drop_last().take(i) =~= s.take(i));
        assert(s.drop_last()[i] == s[i]);
        lemma_first_separator_extend(s.drop_last(), i);
    } else {
        assert(s.take(i) =~= s.drop_last());
    }
}

} // verus!
