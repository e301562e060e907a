use vstd::prelude::*;

use crate::text::{trim_of, trimmed};

verus! {

/// `s` with every trailing `c` removed.
pub open spec fn strip_trailing(s: Seq<char>, c: char) -> Seq<char>
    decreases s.len(),
{
    if s.len() > 0 && s.last() == c {
        strip_trailing(s.drop_last(), c)
    } else {
        s
    }
}

/// Where encrypted media is uploaded and cached.
pub struct MediaUploader {
    blossom_server: Option<String>,
    blossom_token: Option<String>,
    cache_dir: Option<String>,
}

pub open spec fn opt_chars(o: Option<String>) -> Option<Seq<char>> {
    match o {
        Some(s) => Some(s@),
        None => None,
    }
}

fn strip_trailing_slashes(s: &str) -> (r: String)
    ensures
        r@ == strip_trailing(s@, '/'),
{
    let mut n = s.unicode_len();
    assert(s@.subrange(0, n as int) =~= s@);
    while n > 0 && s.get_char(n - 1) == '/'
        invariant
            n <= s@.len(),
            strip_trailing(s@.subrange(0, n as int), '/') == strip_trailing(s@, '/'),
        decreases n,
    {
        assert(s@.subrange(0, n as int).drop_last() =~= s@.subrange(0, n - 1));
        n -= 1;
    }
    assert(s@.subrange(0, n as int).len() == 0 || s@.subrange(0, n as int).last() != '/');
    s.substring_char(0, n).to_owned()
}

impl MediaUploader {
    pub closed spec fn server(&self) -> Option<Seq<char>> {
        opt_chars(self.blossom_server)
    }

    pub closed spec fn token(&self) -> Option<Seq<char>> {
        opt_chars(self.blossom_token)
    }

    pub closed spec fn cache(&self) -> Option<Seq<char>> {
        opt_chars(self.cache_dir)
    }

    pub fn new() -> (r: MediaUploader)
        ensures
            r.server() is None,
            r.token() is None,
            r.cache() is None,
    {
        MediaUploader { blossom_server: None, blossom_token: None, cache_dir: None }
    }

    pub fn set_cache_dir(&mut self, path: String)
        ensures
            final(self).cache() == Some(path@),
            final(self).server() == old(self).server(),
            final(self).token() == old(self).token(),
    {
        self.cache_dir = Some(path);
    }

    /// Sets the media server: surrounding whitespace and trailing slashes are removed,
    /// and an address that is then empty clears the setting.
    pub fn set_blossom_server(&mut self, server: String)
        ensures
            ({
                let s = strip_trailing(trim_of(server@), '/');
                final(self).server() == if s.len() == 0 {
                    None
                } else {
                    Some(s)
                }
            }),
            final(self).token() == old(self).token(),
            final(self).cache() == old(self).cache(),
    {
        let t = trimmed(server.as_str());
        let s = strip_trailing_slashes(t.as_str());
        if s.unicode_len() > 0 {
            self.blossom_server = Some(s);
        } else {
            self.blossom_server = None;
        }
    }

    /// Sets the access token: surrounding whitespace is removed, and a token that is
    /// then empty clears the setting.
    pub fn set_blossom_token(&mut self, token: String)
        ensures
            final(self).token() == if trim_of(token@).len() == 0 {
                None
            } else {
                Some(trim_of(token@))
            },
            final(self).server() == old(self).server(),
            final(self).cache() == old(self).cache(),
    {
        let t = trimmed(token.as_str());
        if t.unicode_len() > 0 {
            self.blossom_token = Some(t);
        } else {
            self.blossom_token = None;
        }
    }

    pub fn get_blossom_server(&self) -> (r: Option<String>)
        ensures
            opt_chars(r) == self.server(),
    {
        crate::store::copy_opt_string(&self.blossom_server)
    }

    pub fn get_blossom_token(&self) -> (r: Option<String>)
        ensures
            opt_chars(r) == self.token(),
    {
        crate::store::copy_opt_string(&self.blossom_token)
    }
}

} // verus!
