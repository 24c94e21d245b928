//! Profiles of users, and the search for them by name.

use vstd::prelude::*;
use vstd::std_specs::iter::IteratorSpec;
use crate::search::{clamp_limit, clamp_limit_spec};

verus! {

/// A user's name with the discriminator that tells apart users of one name.
#[derive(Clone, Debug, PartialEq, Eq)]
pub struct Username {
    pub username: String,
    pub discriminator: i16,
}

/// What one user may learn of another.
#[derive(Clone, Debug, PartialEq, Eq)]
pub struct Profile {
    pub userid: i64,
    pub username: Username,
    pub summary: Option<String>,
    pub bio: Option<String>,
}

impl Profile {
    pub fn new(
        userid: i64,
        username: String,
        discriminator: i16,
        summary: Option<String>,
        bio: Option<String>,
    ) -> (profile: Profile)
        ensures
            profile.userid == userid,
            profile.username.username == username,
            profile.username.discriminator == discriminator,
            profile.summary == summary,
            profile.bio == bio,
    {
        Profile { userid, username: Username { username, discriminator }, summary, bio }
    }
}

/// How many journals are shown with a profile.
pub const PROFILE_JOURNALS: i64 = 10;

/// `query` with a backslash before each percent sign, so that a `LIKE`
/// pattern with backslash as its escape character reads every percent sign
/// of it literally.
pub open spec fn escape_percent(query: Seq<char>) -> Seq<char>
    decreases query.len(),
{
    if query.len() == 0 {
        Seq::empty()
    } else if query.last() == '%' {
        escape_percent(query.drop_last()).push('\\').push('%')
    } else {
        escape_percent(query.drop_last()).push(query.last())
    }
}

/// The `LIKE` pattern that matches the names which hold `query` anywhere.
pub open spec fn like_pattern_spec(query: Seq<char>) -> Seq<char> {
    seq!['%'] + escape_percent(query) + seq!['%']
}

/// The `LIKE` pattern for a search of user names, to be used with backslash
/// as the escape character.
pub fn like_pattern(query: &str) -> (pattern: String)
    ensures
        pattern@ == like_pattern_spec(query@),
{
    proof {
        reveal_strlit("%");
    }
    let mut pattern = "%".to_owned();
    let mut chars = query.chars();
    let ghost mut read: Seq<char> = Seq::empty();
    assert(pattern@ =~= seq!['%'] + escape_percent(read));
    assert(read + chars.remaining() =~= query@);
    loop
        invariant_except_break
            pattern@ == seq!['%'] + escape_percent(read),
            read + chars.remaining() == query@,
        ensures
            pattern@ == seq!['%'] + escape_percent(query@),
        decreases query@.len() - read.len(),
    {
        let ghost rest = chars.remaining();
        match chars.next() {
            None => {
                assert(read =~= query@);
                break;
            },
            Some(c) => {
                proof {
                    assert(read.push(c).drop_last() =~= read);
                    assert(read.push(c) + rest.drop_first() =~= read + rest);
                }
                if c == '%' {
                    pattern.push('\\');
                }
                pattern.push(c);
                proof {
                    read = read.push(c);
                    assert(pattern@ =~= seq!['%'] + escape_percent(read));
                }
            },
        }
    }
    pattern.push('%');
    assert(pattern@ =~= like_pattern_spec(query@));
    pattern
}

/// How many profiles a search returns at most: the count asked for, capped
/// at the largest page size.
pub fn search_count(count: i64) -> (capped: i64)
    ensures
        capped == clamp_limit_spec(count),
{
    clamp_limit(count)
}

} // verus!
