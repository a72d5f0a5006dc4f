//! The run configuration as an explicit value, constructed once at startup
//! from the command line and passed to every component that needs it, and
//! the interpretation of the interactive ignore-prompt's reply.

use vstd::prelude::*;

use crate::text::{
    char_lower_code, is_space, is_space_char, lower_char, trim_end_spec, trim_spec,
    trim_start_spec,
};

verus! {

/// Everything the run is parameterized on: the server address and port, the
/// optional shared secret, an optional single-artist filter, and the two
/// behavior flags.
pub struct Config {
    pub server: String,
    pub port: String,
    pub password: Option<String>,
    pub artist: Option<String>,
    pub ignore: bool,
    pub verbose: bool,
}

impl Config {
    /// Whether the run logs verbosely.
    pub fn is_verbose(&self) -> (r: bool)
        ensures
            r == self.verbose,
    {
        self.verbose
    }

    /// Whether every new release is ignored without prompting.
    pub fn ignore_all_albums(&self) -> (r: bool)
        ensures
            r == self.ignore,
    {
        self.ignore
    }

    /// The address to connect to: the server and port joined by a colon.
    pub fn mpd_host(&self) -> (r: String)
        ensures
            r@ == self.server@ + ":"@ + self.port@,
    {
        let mut s = self.server.clone();
        s.append(":");
        s.append(self.port.as_str());
        s
    }

    /// A copy of the optional shared secret.
    pub fn mpd_password(&self) -> (r: Option<String>)
        ensures
            r == self.password,
    {
        match &self.password {
            Some(p) => Some(p.clone()),
            None => None,
        }
    }

    /// A copy of the optional single-artist filter.
    pub fn artist_filter(&self) -> (r: Option<String>)
        ensures
            r == self.artist,
    {
        match &self.artist {
            Some(a) => Some(a.clone()),
            None => None,
        }
    }
}

/// A prompt reply counts as "yes, ignore it" exactly when, after trimming
/// whitespace, it is empty or the single letter `y` in either case.
pub open spec fn answer_is_yes(s: Seq<char>) -> bool {
    let t = trim_spec(s);
    t.len() == 0 || (t.len() == 1 && lower_char(t[0]) == 'y' as int)
}

proof fn lemma_trim_start_skip(s: Seq<char>, k: int)
    requires
        0 <= k < s.len(),
        is_space(s.skip(k)[0]),
    ensures
        trim_start_spec(s.skip(k)) == trim_start_spec(s.skip(k + 1)),
{
    assert(s.skip(k).skip(1) =~= s.skip(k + 1));
}

proof fn lemma_trim_end_take(t: Seq<char>, m: int)
    requires
        0 < m <= t.len(),
        is_space(t.take(m)[m - 1]),
    ensures
        trim_end_spec(t.take(m)) == trim_end_spec(t.take(m - 1)),
{
    assert(t.take(m).drop_last() =~= t.take(m - 1));
}

/// Interpret the reply to the ignore prompt: an empty reply or a lone `y`
/// (either case, surrounding whitespace ignored) accepts the ignore.
pub fn ignore_answer(input: &str) -> (r: bool)
    ensures
        r == answer_is_yes(input@),
{
    let len = input.unicode_len();
    let mut lo: usize = 0;
    proof {
        assert(input@.skip(0) =~= input@);
    }
    while lo < len && is_space_char(input.get_char(lo))
        invariant
            len == input@.len(),
            lo <= len,
            trim_start_spec(input@) == trim_start_spec(input@.skip(lo as int)),
        decreases len - lo,
    {
        proof {
            assert(input@.skip(lo as int)[0] == input@[lo as int]);
            lemma_trim_start_skip(input@, lo as int);
        }
        lo += 1;
    }
    let ghost t = input@.skip(lo as int);
    proof {
        if lo < len {
            assert(input@.skip(lo as int)[0] == input@[lo as int]);
        }
        assert(trim_start_spec(input@) == t);
    }
    let t_len = len - lo;
    let mut m: usize = t_len;
    proof {
        assert(t.take(t_len as int) =~= t);
    }
    while m > 0 && is_space_char(input.get_char(lo + m - 1))
        invariant
            len == input@.len(),
            lo <= len,
            t == input@.skip(lo as int),
            t_len == t.len(),
            m <= t_len,
            trim_end_spec(t) == trim_end_spec(t.take(m as int)),
        decreases m,
    {
        proof {
            assert(t.take(m as int)[m - 1] == t[m - 1]);
            assert(t[m - 1] == input@[lo + m - 1]);
            lemma_trim_end_take(t, m as int);
        }
        m -= 1;
    }
    proof {
        if m > 0 {
            assert(t.take(m as int)[m - 1] == t[m - 1]);
            assert(t[m - 1] == input@[lo + m - 1]);
        }
        assert(trim_spec(input@) == t.take(m as int));
    }
    if m == 0 {
        proof {
            assert(trim_spec(input@).len() == 0);
        }
        true
    } else if m == 1 {
        let c = input.get_char(lo);
        proof {
            assert(t.take(1)[0] == t[0]);
            assert(t[0] == input@[lo as int]);
        }
        char_lower_code(c) == 121
    } else {
        false
    }
}

} // verus!
