use vstd::prelude::*;

verus! {

/// The position reached from `start` after `steps` round-robin advances in a
/// pool of `len` credentials.
pub open spec fn rotated(start: int, len: nat, steps: nat) -> int
    decreases steps,
{
    if steps == 0 {
        start
    } else {
        (rotated(start, len, (steps - 1) as nat) + 1) % (len as int)
    }
}

/// The ordered pool of upstream credentials together with a cursor into it.
///
/// The cursor advances without bound and is brought back into range when a
/// key is read; every read therefore sees the cursor modulo the pool length.
pub struct KeyManager {
    keys: Vec<String>,
    current_index: usize,
}

impl KeyManager {
    /// The credentials, in rotation order.
    pub closed spec fn pool(&self) -> Seq<Seq<char>> {
        self.keys@.map_values(|k: String| k@)
    }

    /// The pool position that the next read selects.
    pub closed spec fn position(&self) -> int {
        if self.keys@.len() == 0 {
            0
        } else {
            (self.current_index as int) % (self.keys@.len() as int)
        }
    }

    /// The credential that the next read returns.
    pub open spec fn current(&self) -> Seq<char>
        recommends
            self.pool().len() > 0,
    {
        self.pool()[self.position()]
    }

    /// The position always lies within a non-empty pool.
    pub proof fn lemma_position_in_pool(&self)
        requires
            self.pool().len() > 0,
        ensures
            0 <= self.position() < self.pool().len(),
    {
        vstd::arithmetic::div_mod::lemma_mod_bound(
            self.current_index as int,
            self.keys@.len() as int,
        );
    }

    pub fn new(api_keys: Vec<String>) -> (r: Self)
        ensures
            r.pool() == api_keys@.map_values(|k: String| k@),
            r.position() == 0,
    {
        proof {
            if api_keys@.len() > 0 {
                vstd::arithmetic::div_mod::lemma_small_mod(0, api_keys@.len());
            }
        }
        KeyManager { keys: api_keys, current_index: 0 }
    }

    /// Returns the credential at the cursor, normalising the cursor first.
    pub fn get_key(&mut self) -> (r: String)
        requires
            old(self).pool().len() > 0,
        ensures
            final(self).pool() == old(self).pool(),
            final(self).position() == old(self).position(),
            r@ == old(self).current(),
    {
        let len = self.keys.len();
        let idx = self.current_index % len;
        proof {
            vstd::arithmetic::div_mod::lemma_mod_twice(self.current_index as int, len as int);
        }
        self.current_index = idx;
        assert(0 <= idx < len);
        let key = self.keys[idx].clone();
        assert(self.pool()[idx as int] == self.keys@[idx as int]@);
        key
    }

    /// Moves the cursor one position forward, wrapping at the end of the pool.
    pub fn switch_key(&mut self)
        ensures
            final(self).pool() == old(self).pool(),
            old(self).pool().len() > 0 ==> final(self).position() == (old(self).position() + 1)
                % (old(self).pool().len() as int),
    {
        let len = self.keys.len();
        if self.current_index < usize::MAX {
            let ghost before = self.current_index as int;
            self.current_index = self.current_index + 1;
            proof {
                if len > 0 {
                    lemma_mod_succ(before, len as int);
                }
            }
        } else if len > 0 {
            let idx = self.current_index % len;
            self.current_index = idx + 1;
        } else {
            self.current_index = 0;
        }
    }
}

/// Round-robin rotation: starting from the first credential of a pool of
/// `len` credentials, `steps` consecutive advances select the credential at
/// position `steps mod len`. Reads leave the position unchanged, so this holds
/// whatever reads come between the advances.
pub proof fn lemma_rotation_is_modular(len: nat, steps: nat)
    requires
        len > 0,
    ensures
        rotated(0, len, steps) == (steps as int) % (len as int),
    decreases steps,
{
    if steps == 0 {
        vstd::arithmetic::div_mod::lemma_small_mod(0, len);
    } else {
        lemma_rotation_is_modular(len, (steps - 1) as nat);
        lemma_mod_succ(steps - 1, len as int);
    }
}

proof fn lemma_mod_succ(a: int, n: int)
    requires
        a >= 0,
        n > 0,
    ensures
        (a + 1) % n == ((a % n) + 1) % n,
{
    vstd::arithmetic::div_mod::lemma_add_mod_noop_right(1, a, n);
}

} // verus!
