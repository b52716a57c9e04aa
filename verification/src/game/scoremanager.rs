use vstd::prelude::*;

verus! {

/// A colour: red, green, blue, opacity.
#[derive(Clone, Copy, Debug, PartialEq, Eq, Structural)]
pub struct Color(pub u8, pub u8, pub u8, pub u8);

/// One side of a match.
#[derive(Debug, PartialEq, Eq)]
pub struct Team {
    pub id: u8,
    pub name: String,
    pub color: Color,
    pub score: u8,
}

/// The score after one more point: one higher, and no higher than a score
/// can be.
pub open spec fn bumped(score: u8) -> u8 {
    if score < u8::MAX {
        (score + 1) as u8
    } else {
        score
    }
}

impl Team {
    /// Takes the team's points away.
    pub fn reset(&mut self)
        ensures
            final(self).score == 0,
            final(self).id == old(self).id,
            final(self).name == old(self).name,
            final(self).color == old(self).color,
    {
        self.score = 0;
    }

    /// Gives the team a point.
    pub fn add_point(&mut self)
        ensures
            final(self).score == bumped(old(self).score),
            final(self).id == old(self).id,
            final(self).name == old(self).name,
            final(self).color == old(self).color,
    {
        if self.score < u8::MAX {
            self.score += 1;
        }
    }
}

/// Keeps the score of a match.
pub struct ScoreManager {
    teams: Vec<Team>,
    can_score: bool,
    target_score: u8,
}

/// The score of a match: the teams, whether a goal counts at the moment,
/// and the score that ends the match.
pub struct ScoreModel {
    pub teams: Seq<Team>,
    pub can_score: bool,
    pub target_score: u8,
}

impl View for ScoreManager {
    type V = ScoreModel;

    closed spec fn view(&self) -> ScoreModel {
        ScoreModel {
            teams: self.teams@,
            can_score: self.can_score,
            target_score: self.target_score,
        }
    }
}

/// The place of the first team with the number `team_id`, or the number of
/// teams if none has it.
pub open spec fn first_with(teams: Seq<Team>, team_id: u8) -> int
    decreases teams.len(),
{
    if teams.len() == 0 {
        0
    } else if teams.first().id == team_id {
        0
    } else {
        1 + first_with(teams.drop_first(), team_id)
    }
}

proof fn lemma_first_with(teams: Seq<Team>, team_id: u8)
    ensures
        0 <= first_with(teams, team_id) <= teams.len(),
        forall|k: int| 0 <= k < first_with(teams, team_id) ==> (#[trigger] teams[k]).id != team_id,
        first_with(teams, team_id) < teams.len() ==> teams[first_with(teams, team_id)].id
            == team_id,
    decreases teams.len(),
{
    if teams.len() > 0 && teams.first().id != team_id {
        let rest = teams.drop_first();
        lemma_first_with(rest, team_id);
        assert forall|k: int| 0 <= k < first_with(teams, team_id) implies (#[trigger] teams[k]).id
            != team_id by {
            if k > 0 {
                assert(teams[k] == rest[k - 1]);
            }
        }
        if first_with(teams, team_id) < teams.len() {
            assert(teams[first_with(teams, team_id)] == rest[first_with(rest, team_id)]);
        }
    }
}

/// The first place `i` at which a team has the number `team_id` is
/// `first_with`.
proof fn lemma_first_with_is(teams: Seq<Team>, team_id: u8, i: int)
    requires
        0 <= i <= teams.len(),
        forall|k: int| 0 <= k < i ==> (#[trigger] teams[k]).id != team_id,
        i < teams.len() ==> teams[i].id == team_id,
    ensures
        first_with(teams, team_id) == i,
{
    lemma_first_with(teams, team_id);
    let f = first_with(teams, team_id);
    if f < i {
        assert(teams[f].id != team_id);
    }
    if i < f {
        assert(teams[i].id != team_id);
    }
}

impl ScoreManager {
    /// A match between two teams, to one point.
    pub fn new(team1: Team, team2: Team) -> (s: Self)
        ensures
            s@ == (ScoreModel { teams: seq![team1, team2], can_score: true, target_score: 1 }),
    {
        let mut teams: Vec<Team> = Vec::new();
        teams.push(team1);
        teams.push(team2);
        assert(teams@ =~= seq![team1, team2]);
        ScoreManager { teams, can_score: true, target_score: 1 }
    }

    /// The teams.
    pub fn teams(&self) -> (t: &Vec<Team>)
        ensures
            t@ == self@.teams,
    {
        &self.teams
    }

    /// Whether a goal counts at the moment.
    pub fn can_score(&self) -> (b: bool)
        ensures
            b == self@.can_score,
    {
        self.can_score
    }

    /// The score that ends the match.
    pub fn target_score(&self) -> (t: u8)
        ensures
            t == self@.target_score,
    {
        self.target_score
    }

    /// Gives a point to the first team with the number `team_id`, and tells
    /// whether that ends the match. A point that does not end the match
    /// stops goals from counting until they are enabled again. Without such
    /// a team nothing changes.
    pub fn add_point(&mut self, team_id: u8) -> (over: bool)
        ensures
            final(self)@.target_score == old(self)@.target_score,
            final(self)@.teams.len() == old(self)@.teams.len(),
            ({
                let i = first_with(old(self)@.teams, team_id);
                if i < old(self)@.teams.len() {
                    let before = old(self)@.teams[i];
                    let after = final(self)@.teams[i];
                    &&& after.score == bumped(before.score)
                    &&& after.id == before.id && after.name == before.name && after.color
                        == before.color
                    &&& forall|k: int|
                        0 <= k < old(self)@.teams.len() && k != i ==> #[trigger] final(self)@.teams[k]
                            == old(self)@.teams[k]
                    &&& over == (after.score >= old(self)@.target_score)
                    &&& final(self)@.can_score == (over && old(self)@.can_score)
                } else {
                    &&& !over
                    &&& final(self)@ == old(self)@
                }
            }),
    {
        let mut i: usize = 0;
        while i < self.teams.len()
            invariant
                i <= self.teams@.len(),
                *self == *old(self),
                forall|k: int| 0 <= k < i ==> (#[trigger] self.teams@[k]).id != team_id,
            decreases self.teams@.len() - i,
        {
            if self.teams[i].id == team_id {
                proof {
                    lemma_first_with_is(old(self)@.teams, team_id, i as int);
                }
                let team = &mut self.teams[i];
                team.add_point();
                if self.teams[i].score >= self.target_score {
                    return true;
                }
                self.can_score = false;
                return false;
            }
            i += 1;
        }
        proof {
            lemma_first_with_is(old(self)@.teams, team_id, i as int);
        }
        false
    }

    /// Lets goals count again.
    pub fn enable_score(&mut self)
        ensures
            final(self)@ == (ScoreModel { can_score: true, ..old(self)@ }),
    {
        self.can_score = true;
    }

    /// Sets the score that ends the match.
    pub fn set_target_score(&mut self, target: u8)
        ensures
            final(self)@ == (ScoreModel { target_score: target, ..old(self)@ }),
    {
        self.target_score = target;
    }

    /// Takes every team's points away and lets goals count.
    pub fn reset(&mut self)
        ensures
            final(self)@.can_score,
            final(self)@.target_score == old(self)@.target_score,
            final(self)@.teams.len() == old(self)@.teams.len(),
            forall|k: int|
                0 <= k < old(self)@.teams.len() ==> {
                    &&& (#[trigger] final(self)@.teams[k]).score == 0
                    &&& final(self)@.teams[k].id == old(self)@.teams[k].id
                    &&& final(self)@.teams[k].name == old(self)@.teams[k].name
                    &&& final(self)@.teams[k].color == old(self)@.teams[k].color
                },
    {
        let mut i: usize = 0;
        while i < self.teams.len()
            invariant
                i <= self.teams@.len(),
                self.teams@.len() == old(self)@.teams.len(),
                self.target_score == old(self)@.target_score,
                forall|k: int|
                    0 <= k < self.teams@.len() ==> {
                        &&& (#[trigger] self.teams@[k]).id == old(self)@.teams[k].id
                        &&& self.teams@[k].name == old(self)@.teams[k].name
                        &&& self.teams@[k].color == old(self)@.teams[k].color
                    },
                forall|k: int| 0 <= k < i ==> (#[trigger] self.teams@[k]).score == 0,
            decreases self.teams@.len() - i,
        {
            let team = &mut self.teams[i];
            team.reset();
            i += 1;
        }
        self.can_score = true;
    }
}

} // verus!
