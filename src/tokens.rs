use vstd::prelude::*;

use crate::error::ErrorKind;

verus! {

/// An issued authentication token.
#[derive(Clone, Debug)]
pub struct Token {
    pub id: u64,
    /// Name of the owning entity, if any.
    pub entity: Option<String>,
    /// Policy names granted to the token itself.
    pub policies: Vec<String>,
}

pub open spec fn token_at(s: Seq<Token>, id: u64, i: int) -> bool {
    0 <= i < s.len() && s[i].id == id
}

pub open spec fn has_token(s: Seq<Token>, id: u64) -> bool {
    exists|i: int| token_at(s, id, i)
}

/// Issued tokens.
pub struct TokenStore {
    tokens: Vec<Token>,
    next_id: u64,
}

impl TokenStore {
    pub closed spec fn tokens(&self) -> Seq<Token> {
        self.tokens@
    }

    pub closed spec fn wf(&self) -> bool {
        &&& forall|i: int| 0 <= i < self.tokens@.len() ==> (#[trigger] self.tokens@[i]).id < self.next_id
        &&& forall|i: int, j: int|
            0 <= i < j < self.tokens@.len() ==> (#[trigger] self.tokens@[i]).id != (
            #[trigger] self.tokens@[j]).id
    }

    /// Whether a fresh id is left to issue.
    pub closed spec fn can_issue(&self) -> bool {
        self.next_id < u64::MAX
    }

    pub fn new() -> (r: TokenStore)
        ensures
            r.wf(),
            r.can_issue(),
            r.tokens().len() == 0,
    {
        TokenStore { tokens: Vec::new(), next_id: 0 }
    }

    /// Issues a token with a fresh id.
    pub fn issue(&mut self, entity: Option<String>, policies: Vec<String>) -> (r: Result<u64, ErrorKind>)
        requires
            old(self).wf(),
        ensures
            final(self).wf(),
            match r {
                Ok(id) => !has_token(old(self).tokens(), id) && final(self).tokens() == old(
                    self,
                ).tokens().push(Token { id, entity, policies }),
                Err(e) => e == ErrorKind::Internal && *final(self) == *old(self),
            },
            r is Ok <==> old(self).can_issue(),
    {
        if self.next_id == u64::MAX {
            return Err(ErrorKind::Internal);
        }
        let id = self.next_id;
        self.tokens.push(Token { id, entity, policies });
        self.next_id = self.next_id + 1;
        Ok(id)
    }

    fn position(&self, id: u64) -> (r: Option<usize>)
        ensures
            match r {
                Some(i) => token_at(self.tokens(), id, i as int),
                None => !has_token(self.tokens(), id),
            },
    {
        let mut i: usize = 0;
        while i < self.tokens.len()
            invariant
                i <= self.tokens@.len(),
                forall|j: int| 0 <= j < i ==> !token_at(self.tokens@, id, j),
            decreases self.tokens@.len() - i,
        {
            if self.tokens[i].id == id {
                return Some(i);
            }
            i = i + 1;
        }
        None
    }

    /// Fetches a token by id.
    pub fn lookup(&self, id: u64) -> (r: Option<&Token>)
        requires
            self.wf(),
        ensures
            match r {
                Some(t) => exists|i: int|
                    token_at(self.tokens(), id, i) && *t == self.tokens()[i] && forall|j: int|
                        token_at(self.tokens(), id, j) ==> j == i,
                None => !has_token(self.tokens(), id),
            },
    {
        match self.position(id) {
            Some(i) => {
                proof {
                    assert forall|j: int| token_at(self.tokens(), id, j) implies j == i by {
                        if j < i {
                            assert(self.tokens@[j].id != self.tokens@[i as int].id);
                        } else if j > i {
                            assert(self.tokens@[i as int].id != self.tokens@[j].id);
                        }
                    }
                }
                Some(&self.tokens[i])
            },
            None => None,
        }
    }

    /// Removes a token; reports whether it was present.
    pub fn remove(&mut self, id: u64) -> (r: bool)
        requires
            old(self).wf(),
        ensures
            final(self).wf(),
            !has_token(final(self).tokens(), id),
            r == has_token(old(self).tokens(), id),
            r ==> exists|i: int|
                token_at(old(self).tokens(), id, i) && final(self).tokens() == old(self).tokens().remove(i),
            !r ==> *final(self) == *old(self),
    {
        let i = match self.position(id) {
            Some(i) => i,
            None => return false,
        };
        let ghost s = self.tokens@;
        self.tokens.remove(i);
        proof {
            let t = self.tokens@;
            assert forall|a: int| 0 <= a < t.len() implies (#[trigger] t[a]).id < self.next_id by {
                let a0 = if a < i { a } else { a + 1 };
                assert(t[a] == s[a0]);
            }
            assert forall|a: int, b: int| 0 <= a < b < t.len() implies (#[trigger] t[a]).id != (
            #[trigger] t[b]).id by {
                let a0 = if a < i { a } else { a + 1 };
                let b0 = if b < i { b } else { b + 1 };
                assert(t[a] == s[a0] && t[b] == s[b0]);
                assert(s[a0].id != s[b0].id);
            }
            assert forall|j: int| !token_at(t, id, j) by {
                if token_at(t, id, j) {
                    let j0 = if j < i { j } else { j + 1 };
                    assert(t[j] == s[j0]);
                    if j0 < i {
                        assert(s[j0].id != s[i as int].id);
                    } else {
                        assert(s[i as int].id != s[j0].id);
                    }
                }
            }
        }
        true
    }
}

} // verus!
