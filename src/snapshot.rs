use vstd::prelude::*;
use crate::components::{Transform, vec_words, transform_words, fixed_hash_of, checksum_words};
use crate::game::{Bullet, RollbackState, Ship, SimModel, SimState, bullet_wf, ship_wf};
use crate::math::Vec3i;

verus! {

// What a state is hashed from, how it is copied, and why no gameplay field
// escapes the hash.

pub open spec fn ship_words(s: Ship) -> Seq<u64> {
    let t = s.transform.translation;
    seq![
        s.player.handle as u64,
        t.x as u64,
        t.y as u64,
        t.z as u64,
        s.transform.rotation.0 as u64,
        s.speed as u64,
        if s.ready.0 { 1u64 } else { 0u64 },
        s.velocity.0.x as u64,
        s.velocity.0.y as u64,
        s.velocity.0.z as u64,
        s.acceleration.0.x as u64,
        s.acceleration.0.y as u64,
        s.acceleration.0.z as u64,
    ]
}

pub open spec fn bullet_words(b: Bullet) -> Seq<u64> {
    let t = b.transform.translation;
    seq![
        b.owner as u64,
        t.x as u64,
        t.y as u64,
        t.z as u64,
        b.transform.rotation.0 as u64,
        b.velocity.0.x as u64,
        b.velocity.0.y as u64,
        b.velocity.0.z as u64,
        b.age as u64,
    ]
}

pub open spec fn ships_words(ss: Seq<Ship>) -> Seq<u64>
    decreases ss.len(),
{
    if ss.len() == 0 {
        Seq::empty()
    } else {
        ships_words(ss.drop_last()) + ship_words(ss.last())
    }
}

pub open spec fn bullets_words(bs: Seq<Bullet>) -> Seq<u64>
    decreases bs.len(),
{
    if bs.len() == 0 {
        Seq::empty()
    } else {
        bullets_words(bs.drop_last()) + bullet_words(bs.last())
    }
}

/// The words a state is hashed from: every gameplay field, with the number
/// of ships and of bullets ahead of their records.
pub open spec fn state_words(m: SimModel) -> Seq<u64> {
    seq![m.ships.len() as u64] + ships_words(m.ships) + seq![m.bullets.len() as u64] + bullets_words(
        m.bullets,
    ) + seq![
        m.scores.0 as u64,
        m.scores.1 as u64,
        if m.round == RollbackState::InRound { 0u64 } else { 1u64 },
        m.round_end_timer as u64,
    ]
}

pub open spec fn state_checksum(m: SimModel) -> u64 {
    fixed_hash_of(state_words(m))
}

fn push_vec_words(out: &mut Vec<u64>, v: Vec3i)
    ensures
        final(out)@ == old(out)@ + vec_words(v),
{
    out.push(v.x as u64);
    out.push(v.y as u64);
    out.push(v.z as u64);
    assert(final(out)@ =~= old(out)@ + vec_words(v));
}

fn push_transform_words(out: &mut Vec<u64>, t: Transform)
    ensures
        final(out)@ == old(out)@ + transform_words(t),
{
    push_vec_words(out, t.translation);
    out.push(t.rotation.0 as u64);
    assert(final(out)@ =~= old(out)@ + transform_words(t));
}

fn push_ship_words(out: &mut Vec<u64>, s: Ship)
    ensures
        final(out)@ == old(out)@ + ship_words(s),
{
    out.push(s.player.handle as u64);
    push_transform_words(out, s.transform);
    out.push(s.speed as u64);
    out.push(if s.ready.0 { 1u64 } else { 0u64 });
    push_vec_words(out, s.velocity.0);
    push_vec_words(out, s.acceleration.0);
    assert(final(out)@ =~= old(out)@ + ship_words(s));
}

fn push_bullet_words(out: &mut Vec<u64>, b: Bullet)
    ensures
        final(out)@ == old(out)@ + bullet_words(b),
{
    out.push(b.owner as u64);
    push_transform_words(out, b.transform);
    push_vec_words(out, b.velocity.0);
    out.push(b.age as u64);
    assert(final(out)@ =~= old(out)@ + bullet_words(b));
}

impl SimState {
    /// The words `state_words` describes.
    pub fn encode(&self) -> (r: Vec<u64>)
        ensures
            r@ == state_words(self@),
    {
        let mut out: Vec<u64> = Vec::new();
        out.push(self.ships.len() as u64);
        let mut i: usize = 0;
        while i < self.ships.len()
            invariant
                0 <= i <= self.ships@.len(),
                out@ == seq![self.ships@.len() as u64] + ships_words(self.ships@.subrange(0, i as int)),
            decreases self.ships@.len() - i,
        {
            let ghost sub = self.ships@.subrange(0, i as int + 1);
            assert(sub.drop_last() =~= self.ships@.subrange(0, i as int));
            push_ship_words(&mut out, self.ships[i]);
            i = i + 1;
            assert(out@ =~= seq![self.ships@.len() as u64] + ships_words(sub));
        }
        assert(self.ships@.subrange(0, self.ships@.len() as int) =~= self.ships@);
        let ghost head = out@ + seq![self.bullets@.len() as u64];
        out.push(self.bullets.len() as u64);
        let mut j: usize = 0;
        while j < self.bullets.len()
            invariant
                0 <= j <= self.bullets@.len(),
                out@ == head + bullets_words(self.bullets@.subrange(0, j as int)),
            decreases self.bullets@.len() - j,
        {
            let ghost sub = self.bullets@.subrange(0, j as int + 1);
            assert(sub.drop_last() =~= self.bullets@.subrange(0, j as int));
            push_bullet_words(&mut out, self.bullets[j]);
            j = j + 1;
            assert(out@ =~= head + bullets_words(sub));
        }
        assert(self.bullets@.subrange(0, self.bullets@.len() as int) =~= self.bullets@);
        out.push(self.scores.0 as u64);
        out.push(self.scores.1 as u64);
        out.push(
            match self.round {
                RollbackState::InRound => 0u64,
                RollbackState::RoundEnd => 1u64,
            },
        );
        out.push(self.round_end_timer as u64);
        assert(out@ =~= state_words(self@));
        out
    }

    /// Checksum of every gameplay field, with the fixed-seed hasher.
    pub fn checksum(&self) -> (r: u64)
        ensures
            r == state_checksum(self@),
    {
        let words = self.encode();
        checksum_words(&words)
    }

    /// A copy of the state, field for field.
    pub fn duplicate(&self) -> (r: SimState)
        ensures
            r@ == self@,
    {
        let mut ships: Vec<Ship> = Vec::new();
        let mut i: usize = 0;
        while i < self.ships.len()
            invariant
                0 <= i <= self.ships@.len(),
                ships@ == self.ships@.subrange(0, i as int),
            decreases self.ships@.len() - i,
        {
            ships.push(self.ships[i]);
            i = i + 1;
            assert(ships@ =~= self.ships@.subrange(0, i as int));
        }
        let mut bullets: Vec<Bullet> = Vec::new();
        let mut j: usize = 0;
        while j < self.bullets.len()
            invariant
                0 <= j <= self.bullets@.len(),
                bullets@ == self.bullets@.subrange(0, j as int),
            decreases self.bullets@.len() - j,
        {
            bullets.push(self.bullets[j]);
            j = j + 1;
            assert(bullets@ =~= self.bullets@.subrange(0, j as int));
        }
        assert(ships@ =~= self.ships@);
        assert(bullets@ =~= self.bullets@);
        SimState {
            ships,
            bullets,
            scores: self.scores,
            round: self.round,
            round_end_timer: self.round_end_timer,
        }
    }
}


proof fn lemma_i64_word(a: i64, b: i64)
    requires
        a as u64 == b as u64,
    ensures
        a == b,
{
    assert(a as u64 == b as u64 ==> a == b) by (bit_vector);
}

proof fn lemma_ship_words_injective(s: Ship, t: Ship)
    requires
        ship_wf(s),
        ship_wf(t),
        ship_words(s) == ship_words(t),
    ensures
        s == t,
{
    let (ws, wt) = (ship_words(s), ship_words(t));
    assert(ws[0] == wt[0] && ws[4] == wt[4] && ws[5] == wt[5] && ws[6] == wt[6]);
    lemma_i64_word(s.transform.translation.x, t.transform.translation.x);
    lemma_i64_word(s.transform.translation.y, t.transform.translation.y);
    lemma_i64_word(s.transform.translation.z, t.transform.translation.z);
    lemma_i64_word(s.velocity.0.x, t.velocity.0.x);
    lemma_i64_word(s.velocity.0.y, t.velocity.0.y);
    lemma_i64_word(s.velocity.0.z, t.velocity.0.z);
    lemma_i64_word(s.acceleration.0.x, t.acceleration.0.x);
    lemma_i64_word(s.acceleration.0.y, t.acceleration.0.y);
    lemma_i64_word(s.acceleration.0.z, t.acceleration.0.z);
}

proof fn lemma_bullet_words_injective(b: Bullet, c: Bullet)
    requires
        bullet_wf(b),
        bullet_wf(c),
        bullet_words(b) == bullet_words(c),
    ensures
        b == c,
{
    let (wb, wc) = (bullet_words(b), bullet_words(c));
    assert(wb[0] == wc[0] && wb[4] == wc[4] && wb[8] == wc[8]);
    lemma_i64_word(b.transform.translation.x, c.transform.translation.x);
    lemma_i64_word(b.transform.translation.y, c.transform.translation.y);
    lemma_i64_word(b.transform.translation.z, c.transform.translation.z);
    lemma_i64_word(b.velocity.0.x, c.velocity.0.x);
    lemma_i64_word(b.velocity.0.y, c.velocity.0.y);
    lemma_i64_word(b.velocity.0.z, c.velocity.0.z);
}

proof fn lemma_ships_words_injective(a: Seq<Ship>, b: Seq<Ship>)
    requires
        a.len() == b.len(),
        forall|i: int| 0 <= i < a.len() ==> ship_wf(#[trigger] a[i]),
        forall|i: int| 0 <= i < b.len() ==> ship_wf(#[trigger] b[i]),
        ships_words(a) == ships_words(b),
    ensures
        a == b,
        ships_words(a).len() == 13 * a.len(),
    decreases a.len(),
{
    if a.len() > 0 {
        let (da, db) = (a.drop_last(), b.drop_last());
        lemma_ships_words_len(da);
        lemma_ships_words_len(db);
        let n = ships_words(da).len() as int;
        assert(ships_words(a).subrange(0, n) =~= ships_words(da));
        assert(ships_words(b).subrange(0, n) =~= ships_words(db));
        assert(ships_words(a).subrange(n, n + 13) =~= ship_words(a.last()));
        assert(ships_words(b).subrange(n, n + 13) =~= ship_words(b.last()));
        lemma_ships_words_injective(da, db);
        lemma_ship_words_injective(a.last(), b.last());
        assert(a =~= da.push(a.last()));
        assert(b =~= db.push(b.last()));
    }
}

proof fn lemma_ships_words_len(a: Seq<Ship>)
    ensures
        ships_words(a).len() == 13 * a.len(),
    decreases a.len(),
{
    if a.len() > 0 {
        lemma_ships_words_len(a.drop_last());
    }
}

proof fn lemma_bullets_words_len(a: Seq<Bullet>)
    ensures
        bullets_words(a).len() == 9 * a.len(),
    decreases a.len(),
{
    if a.len() > 0 {
        lemma_bullets_words_len(a.drop_last());
    }
}

proof fn lemma_bullets_words_injective(a: Seq<Bullet>, b: Seq<Bullet>)
    requires
        a.len() == b.len(),
        forall|i: int| 0 <= i < a.len() ==> bullet_wf(#[trigger] a[i]),
        forall|i: int| 0 <= i < b.len() ==> bullet_wf(#[trigger] b[i]),
        bullets_words(a) == bullets_words(b),
    ensures
        a == b,
    decreases a.len(),
{
    if a.len() > 0 {
        let (da, db) = (a.drop_last(), b.drop_last());
        lemma_bullets_words_len(da);
        lemma_bullets_words_len(db);
        let n = bullets_words(da).len() as int;
        assert(bullets_words(a).subrange(0, n) =~= bullets_words(da));
        assert(bullets_words(b).subrange(0, n) =~= bullets_words(db));
        assert(bullets_words(a).subrange(n, n + 9) =~= bullet_words(a.last()));
        assert(bullets_words(b).subrange(n, n + 9) =~= bullet_words(b.last()));
        lemma_bullets_words_injective(da, db);
        lemma_bullet_words_injective(a.last(), b.last());
        assert(a =~= da.push(a.last()));
        assert(b =~= db.push(b.last()));
    }
}

/// The checksum is a function of the gameplay fields alone, and those fields
/// are hashed without loss: two valid states that differ in any field are
/// hashed from different words.
pub proof fn lemma_checksum_words_injective(a: SimModel, b: SimModel)
    requires
        a.wf(),
        b.wf(),
        a.bullets.len() <= usize::MAX,
        b.bullets.len() <= usize::MAX,
    ensures
        a == b ==> state_checksum(a) == state_checksum(b),
        state_words(a) == state_words(b) ==> a == b,
{
    if state_words(a) == state_words(b) {
        let (wa, wb) = (state_words(a), state_words(b));
        lemma_ships_words_len(a.ships);
        lemma_ships_words_len(b.ships);
        lemma_bullets_words_len(a.bullets);
        lemma_bullets_words_len(b.bullets);
        assert(wa[0] == a.ships.len() as u64);
        assert(wb[0] == b.ships.len() as u64);
        assert(a.ships.len() == b.ships.len());
        let l = 13 * a.ships.len() as int;
        assert(wa.subrange(1, 1 + l) =~= ships_words(a.ships));
        assert(wb.subrange(1, 1 + l) =~= ships_words(b.ships));
        lemma_ships_words_injective(a.ships, b.ships);
        assert(wa[1 + l] == a.bullets.len() as u64);
        assert(wb[1 + l] == b.bullets.len() as u64);
        assert(a.bullets.len() == b.bullets.len());
        let k = 9 * a.bullets.len() as int;
        assert(wa.subrange(2 + l, 2 + l + k) =~= bullets_words(a.bullets));
        assert(wb.subrange(2 + l, 2 + l + k) =~= bullets_words(b.bullets));
        lemma_bullets_words_injective(a.bullets, b.bullets);
        assert(wa[2 + l + k] == wb[2 + l + k]);
        assert(wa[3 + l + k] == wb[3 + l + k]);
        assert(wa[4 + l + k] == wb[4 + l + k]);
        assert(wa[5 + l + k] == wb[5 + l + k]);
    }
}

} // verus!
