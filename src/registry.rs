use rand::distributions::Alphanumeric;
use rand::Rng;
use vstd::prelude::*;

verus! {

/// The length of a generated game token.
pub const TOKEN_LEN: usize = 7;

pub open spec fn is_alphanumeric(c: char) -> bool {
    ('A' <= c && c <= 'Z') || ('a' <= c && c <= 'z') || ('0' <= c && c <= '9')
}

/// Relies on `rand::thread_rng` sampling `rand::distributions::Alphanumeric`:
/// `len` characters, each an ASCII letter or digit.
#[verifier::external_body]
fn random_token(len: usize) -> (r: String)
    ensures
        r@.len() == len,
        forall|i: int| 0 <= i < r@.len() ==> is_alphanumeric(#[trigger] r@[i]),
{
    rand::thread_rng().sample_iter(&Alphanumeric).take(len).map(char::from).collect()
}

/// The id of the game that a connection asks for: the token it gave, or a
/// fresh random one.
pub fn game_id(token: Option<String>) -> (r: String)
    ensures
        token matches Some(t) ==> r@ == t@,
        token is None ==> r@.len() == TOKEN_LEN && forall|i: int|
            0 <= i < r@.len() ==> is_alphanumeric(#[trigger] r@[i]),
{
    match token {
        Some(t) => t,
        None => random_token(TOKEN_LEN),
    }
}

/// The map that a list of entries gives, later entries overriding earlier ones.
pub open spec fn map_of<G>(s: Seq<(String, G)>) -> Map<Seq<char>, G>
    decreases s.len(),
{
    if s.len() == 0 {
        Map::empty()
    } else {
        map_of(s.drop_last()).insert(s.last().0@, s.last().1)
    }
}

proof fn lemma_map_of_push<G>(s: Seq<(String, G)>, e: (String, G))
    ensures
        map_of(s.push(e)) == map_of(s).insert(e.0@, e.1),
{
    assert(s.push(e).drop_last() =~= s);
}

/// The games, each under its id.
pub struct Registry<G> {
    entries: Vec<(String, G)>,
}

impl<G> View for Registry<G> {
    type V = Map<Seq<char>, G>;

    closed spec fn view(&self) -> Map<Seq<char>, G> {
        map_of(self.entries@)
    }
}

impl<G> Registry<G> {
    pub fn new() -> (r: Registry<G>)
        ensures
            r@ == Map::<Seq<char>, G>::empty(),
    {
        Registry { entries: Vec::new() }
    }

    /// The place of the entry that decides what `id` maps to.
    fn find(&self, id: &String) -> (r: Option<usize>)
        ensures
            r is None <==> !self@.contains_key(id@),
            r matches Some(i) ==> i < self.entries@.len() && self.entries@[i as int].1
                == self@[id@],
    {
        let ghost s = self.entries@;
        let mut i: usize = self.entries.len();
        proof {
            assert(s.take(i as int) =~= s);
        }
        while i > 0
            invariant
                i <= s.len(),
                s == self.entries@,
                map_of(s).contains_key(id@) == map_of(s.take(i as int)).contains_key(id@),
                map_of(s).contains_key(id@) ==> map_of(s)[id@] == map_of(s.take(i as int))[id@],
            decreases i,
        {
            proof {
                assert(s.take(i as int).drop_last() =~= s.take(i - 1));
            }
            if self.entries[i - 1].0 == *id {
                return Some(i - 1);
            }
            i = i - 1;
        }
        proof {
            assert(s.take(0) =~= Seq::<(String, G)>::empty());
        }
        None
    }

    /// The game under `id`, if there is one.
    pub fn get(&self, id: &String) -> (r: Option<&G>)
        ensures
            r is None <==> !self@.contains_key(id@),
            r matches Some(g) ==> *g == self@[id@],
    {
        match self.find(id) {
            Some(i) => Some(&self.entries[i].1),
            None => None,
        }
    }

    /// Whether a game stands under `id`.
    pub fn contains(&self, id: &String) -> (r: bool)
        ensures
            r == self@.contains_key(id@),
    {
        self.find(id).is_some()
    }

    /// Takes the game under `id` out; nothing happens when there is none.
    pub fn remove(&mut self, id: &String)
        ensures
            final(self)@ == old(self)@.remove(id@),
    {
        let ghost s = self.entries@;
        let mut kept: Vec<(String, G)> = Vec::new();
        let mut rest: Vec<(String, G)> = Vec::new();
        std::mem::swap(&mut rest, &mut self.entries);
        let mut taken: Vec<(String, G)> = Vec::new();
        proof {
            assert(rest@ == s);
        }
        // Entries are moved out front to back through a reversed list.
        while rest.len() > 0
            invariant
                rest@.len() <= s.len(),
                taken@ =~= s.subrange(rest@.len() as int, s.len() as int).reverse(),
                rest@ =~= s.take(rest@.len() as int),
            decreases rest@.len(),
        {
            let e = rest.pop().unwrap();
            taken.push(e);
        }
        let ghost n = taken@.len();
        while taken.len() > 0
            invariant
                n == s.len(),
                taken@.len() <= n,
                taken@ =~= s.subrange(n - taken@.len(), n as int).reverse(),
                map_of(kept@) == map_of(s.take(n - taken@.len())).remove(id@),
            decreases taken@.len(),
        {
            let ghost before = s.take(n - taken@.len());
            let e = taken.pop().unwrap();
            proof {
                let after = s.take(n - taken@.len());
                assert(after.drop_last() =~= before);
                assert(after.last() == e);
            }
            if e.0 == *id {
                proof {
                    assert(map_of(before).insert(e.0@, e.1).remove(id@) =~= map_of(before).remove(
                        id@,
                    ));
                }
            } else {
                proof {
                    lemma_map_of_push(kept@, e);
                    assert(map_of(before).insert(e.0@, e.1).remove(id@) =~= map_of(
                        before,
                    ).remove(id@).insert(e.0@, e.1));
                }
                kept.push(e);
            }
        }
        proof {
            assert(s.take(n as int) =~= s);
        }
        self.entries = kept;
    }

    /// Puts `game` under `id`, in place of any game there.
    pub fn insert(&mut self, id: String, game: G)
        ensures
            final(self)@ == old(self)@.insert(id@, game),
    {
        self.remove(&id);
        let ghost s = self.entries@;
        self.entries.push((id, game));
        proof {
            lemma_map_of_push(s, (id, game));
            assert(old(self)@.remove(id@).insert(id@, game) =~= old(self)@.insert(id@, game));
        }
    }

    /// The game under `id`; where there is none, `fresh` is put there first.
    pub fn get_or_insert(&mut self, id: String, fresh: G) -> (r: &G)
        ensures
            old(self)@.contains_key(id@) ==> final(self)@ == old(self)@ && *r == old(self)@[id@],
            !old(self)@.contains_key(id@) ==> final(self)@ == old(self)@.insert(id@, fresh) && *r
                == fresh,
    {
        match self.find(&id) {
            Some(i) => &self.entries[i].1,
            None => {
                let ghost s = self.entries@;
                self.entries.push((id, fresh));
                proof {
                    lemma_map_of_push(s, (id, fresh));
                }
                let last = self.entries.len() - 1;
                &self.entries[last].1
            },
        }
    }
}

/// Once the game under `id` is removed, asking for `id` again puts the
/// fresh game there and returns it, never the removed one.
pub proof fn lemma_removed_game_is_replaced<G>(m: Map<Seq<char>, G>, id: Seq<char>, fresh: G)
    ensures
        !m.remove(id).contains_key(id),
        m.remove(id).insert(id, fresh)[id] == fresh,
{
}

} // verus!
