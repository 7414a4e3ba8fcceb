//! Counting won and lost games.

use vstd::prelude::*;

verus! {

/// How a game ended.
#[derive(PartialEq, Eq, Debug, Clone, Copy, Structural)]
pub enum EndGameKind {
    NoResult,
    Defeat,
    Victory,
    Fame,
    Helheim,
    Faith,
    Lore,
    Mealsquirrel,
    Odinsword,
    Money,
    Owltitan,
    Yggdrasil,
}

impl EndGameKind {
    /// The kind that a number stands for; a number that stands for none is
    /// `NoResult`.
    pub open spec fn of(value: u32) -> EndGameKind {
        if value == 1 {
            EndGameKind::Defeat
        } else if value == 2 {
            EndGameKind::Victory
        } else if value == 3 {
            EndGameKind::Fame
        } else if value == 4 {
            EndGameKind::Helheim
        } else if value == 5 {
            EndGameKind::Faith
        } else if value == 6 {
            EndGameKind::Lore
        } else if value == 7 {
            EndGameKind::Mealsquirrel
        } else if value == 8 {
            EndGameKind::Odinsword
        } else if value == 9 {
            EndGameKind::Money
        } else if value == 10 {
            EndGameKind::Owltitan
        } else if value == 11 {
            EndGameKind::Yggdrasil
        } else {
            EndGameKind::NoResult
        }
    }

    /// Reads the kind of ending from the number that the game reports.
    pub fn from_u32(value: u32) -> (kind: EndGameKind)
        ensures
            kind == EndGameKind::of(value),
    {
        match value {
            0 => EndGameKind::NoResult,
            1 => EndGameKind::Defeat,
            2 => EndGameKind::Victory,
            3 => EndGameKind::Fame,
            4 => EndGameKind::Helheim,
            5 => EndGameKind::Faith,
            6 => EndGameKind::Lore,
            7 => EndGameKind::Mealsquirrel,
            8 => EndGameKind::Odinsword,
            9 => EndGameKind::Money,
            10 => EndGameKind::Owltitan,
            11 => EndGameKind::Yggdrasil,
            _ => EndGameKind::NoResult,
        }
    }
}

/// The name under which a kind of victory is counted. A defeat has none, nor
/// has an ending of no kind.
pub open spec fn reason_text(kind: EndGameKind) -> Option<Seq<char>> {
    match kind {
        EndGameKind::Victory => Some("defaultVictory"@),
        EndGameKind::Fame => Some("fameVictory"@),
        EndGameKind::Helheim => Some("helheimVictory"@),
        EndGameKind::Faith => Some("faithVictory"@),
        EndGameKind::Lore => Some("loreVictory"@),
        EndGameKind::Mealsquirrel => Some("mealSquirrelVictory"@),
        EndGameKind::Odinsword => Some("odinSwordVictory"@),
        EndGameKind::Money => Some("moneyVictory"@),
        EndGameKind::Owltitan => Some("owlTitanVictory"@),
        EndGameKind::Yggdrasil => Some("yggdrasilVictory"@),
        _ => None,
    }
}

/// Names the kind of victory.
pub fn reason_for_kind(kind: EndGameKind) -> (reason: Option<&'static str>)
    ensures
        reason is Some <==> reason_text(kind) is Some,
        reason is Some ==> reason->0@ == reason_text(kind)->0,
{
    match kind {
        EndGameKind::Victory => Some("defaultVictory"),
        EndGameKind::Fame => Some("fameVictory"),
        EndGameKind::Helheim => Some("helheimVictory"),
        EndGameKind::Faith => Some("faithVictory"),
        EndGameKind::Lore => Some("loreVictory"),
        EndGameKind::Mealsquirrel => Some("mealSquirrelVictory"),
        EndGameKind::Odinsword => Some("odinSwordVictory"),
        EndGameKind::Money => Some("moneyVictory"),
        EndGameKind::Owltitan => Some("owlTitanVictory"),
        EndGameKind::Yggdrasil => Some("yggdrasilVictory"),
        _ => None,
    }
}

/// Whether a game was won or lost.
#[derive(Debug, Clone, Copy, PartialEq, Eq, Structural)]
pub enum Outcome {
    Win,
    Loss,
}

/// One game.
#[derive(Debug, Clone)]
pub struct WinrateEntry {
    pub outcome: Outcome,
    pub reason: Option<String>,
    pub timestamp: u64,
}

/// How often a kind of victory was had.
#[derive(Debug, Clone)]
pub struct ReasonCount {
    pub reason: String,
    pub count: u32,
}

/// The games played, and their counts.
#[derive(Debug)]
pub struct WinrateStats {
    pub total_wins: u32,
    pub total_losses: u32,
    /// The count of each kind of victory that was had, each kind once.
    pub by_reason: Vec<ReasonCount>,
    /// The games, oldest first.
    pub entries: Vec<WinrateEntry>,
}

/// Where the statistics are kept.
#[derive(Debug)]
pub struct WinrateStore {
    pub file_path: String,
}

/// One more, up to the largest number.
pub open spec fn one_more(count: u32) -> u32 {
    if count < u32::MAX {
        (count + 1) as u32
    } else {
        count
    }
}

/// Index of the first count at or after `from` that is kept for the reason,
/// if there is one.
pub open spec fn reason_from(counts: Seq<ReasonCount>, reason: Seq<char>, from: int) -> Option<int>
    decreases counts.len() - from,
{
    if from < 0 || from >= counts.len() {
        None
    } else if counts[from].reason@ == reason {
        Some(from)
    } else {
        reason_from(counts, reason, from + 1)
    }
}

/// Counts as plain values: reason and number.
pub open spec fn counts_view(counts: Seq<ReasonCount>) -> Seq<(Seq<char>, u32)> {
    Seq::new(counts.len(), |i: int| (counts[i].reason@, counts[i].count))
}

/// The counts after one more victory for the reason: its count is one more,
/// or one if it had none.
pub open spec fn counted(counts: Seq<ReasonCount>, reason: Seq<char>) -> Seq<(Seq<char>, u32)> {
    match reason_from(counts, reason, 0) {
        Some(i) => counts_view(counts).update(i, (reason, one_more(counts[i].count))),
        None => counts_view(counts).push((reason, 1u32)),
    }
}

/// A game as plain values: outcome, reason and time.
pub open spec fn entry_view(entry: WinrateEntry) -> (Outcome, Option<Seq<char>>, u64) {
    (
        entry.outcome,
        match entry.reason {
            Some(r) => Some(r@),
            None => None,
        },
        entry.timestamp,
    )
}

/// Games as plain values.
pub open spec fn entries_view(entries: Seq<WinrateEntry>) -> Seq<
    (Outcome, Option<Seq<char>>, u64),
> {
    Seq::new(entries.len(), |i: int| entry_view(entries[i]))
}

/// No kind of victory is counted twice.
pub open spec fn reasons_distinct(counts: Seq<ReasonCount>) -> bool {
    forall|i: int, j: int|
        0 <= i < j < counts.len() ==> (#[trigger] counts[i]).reason@ != (
        #[trigger] counts[j]).reason@
}

/// A count that is found lies in the list and is kept for the reason; none
/// is found only if no count is kept for it.
pub proof fn lemma_reason_from(counts: Seq<ReasonCount>, reason: Seq<char>, from: int)
    requires
        0 <= from,
    ensures
        match reason_from(counts, reason, from) {
            Some(i) => from <= i < counts.len() && counts[i].reason@ == reason,
            None => forall|i: int| from <= i < counts.len() ==> (#[trigger] counts[i]).reason@
                != reason,
        },
    decreases counts.len() - from,
{
    if from < counts.len() && counts[from].reason@ != reason {
        lemma_reason_from(counts, reason, from + 1);
    }
}

impl WinrateStats {
    /// No kind of victory is counted twice.
    pub open spec fn wf(&self) -> bool {
        reasons_distinct(self.by_reason@)
    }

    /// Statistics of no games.
    pub fn new() -> (stats: WinrateStats)
        ensures
            stats.wf(),
            stats.total_wins == 0,
            stats.total_losses == 0,
            stats.by_reason@.len() == 0,
            stats.entries@.len() == 0,
    {
        WinrateStats { total_wins: 0, total_losses: 0, by_reason: Vec::new(), entries: Vec::new() }
    }

    /// Counts one more victory for the reason.
    fn count_reason(&mut self, reason: &str)
        ensures
            final(self).total_wins == old(self).total_wins,
            final(self).total_losses == old(self).total_losses,
            final(self).entries == old(self).entries,
            counts_view(final(self).by_reason@) == counted(old(self).by_reason@, reason@),
            old(self).wf() ==> final(self).wf(),
    {
        let wanted = reason.to_string();
        let ghost before = self.by_reason@;
        proof {
            lemma_reason_from(before, reason@, 0);
        }
        let mut i: usize = 0;
        while i < self.by_reason.len()
            invariant
                i <= self.by_reason@.len(),
                wanted@ == reason@,
                self.by_reason@ == before,
                before == old(self).by_reason@,
                self.total_wins == old(self).total_wins,
                self.total_losses == old(self).total_losses,
                self.entries == old(self).entries,
                reason_from(before, reason@, 0) == reason_from(before, reason@, i as int),
            decreases self.by_reason@.len() - i,
        {
            if self.by_reason[i].reason == wanted {
                let count = self.by_reason[i].count.saturating_add(1);
                self.by_reason.set(i, ReasonCount { reason: wanted, count });
                assert(counts_view(self.by_reason@) =~= counted(before, reason@));
                proof {
                    if reasons_distinct(before) {
                        assert forall|a: int, b: int|
                            0 <= a < b < self.by_reason@.len() implies (
                        #[trigger] self.by_reason@[a]).reason@ != (
                        #[trigger] self.by_reason@[b]).reason@ by {
                            assert(self.by_reason@[a].reason@ == before[a].reason@);
                            assert(self.by_reason@[b].reason@ == before[b].reason@);
                        }
                    }
                }
                return ;
            }
            i = i + 1;
        }
        self.by_reason.push(ReasonCount { reason: wanted, count: 1 });
        assert(counts_view(self.by_reason@) =~= counted(before, reason@));
        proof {
            if reasons_distinct(before) {
                assert forall|a: int, b: int| 0 <= a < b < self.by_reason@.len() implies (
                #[trigger] self.by_reason@[a]).reason@ != (
                #[trigger] self.by_reason@[b]).reason@ by {
                    assert(self.by_reason@[a] == before[a]);
                    if b < before.len() {
                        assert(self.by_reason@[b] == before[b]);
                    }
                }
            }
        }
    }

    /// Takes in the end of a game at the time `now_secs`. A defeat counts as
    /// a loss; every other ending counts as a win, and as a victory of its
    /// kind if it has one. The counts stop at the largest number. The game
    /// is added to the list of games.
    pub fn update_from_kind(&mut self, kind: EndGameKind, now_secs: u64)
        ensures
            old(self).wf() ==> final(self).wf(),
            final(self).total_losses == if kind == EndGameKind::Defeat {
                one_more(old(self).total_losses)
            } else {
                old(self).total_losses
            },
            final(self).total_wins == if kind == EndGameKind::Defeat {
                old(self).total_wins
            } else {
                one_more(old(self).total_wins)
            },
            counts_view(final(self).by_reason@) == if kind != EndGameKind::Defeat && reason_text(
                kind,
            ) is Some {
                counted(old(self).by_reason@, reason_text(kind)->0)
            } else {
                counts_view(old(self).by_reason@)
            },
            entries_view(final(self).entries@) == entries_view(old(self).entries@).push(
                if kind == EndGameKind::Defeat {
                    (Outcome::Loss, None, now_secs)
                } else {
                    (Outcome::Win, reason_text(kind), now_secs)
                },
            ),
    {
        let ghost before = self.entries@;
        if kind == EndGameKind::Defeat {
            self.total_losses = self.total_losses.saturating_add(1);
            self.entries.push(
                WinrateEntry { outcome: Outcome::Loss, reason: None, timestamp: now_secs },
            );
            assert(entries_view(self.entries@) =~= entries_view(before).push(
                (Outcome::Loss, None, now_secs),
            ));
        } else {
            self.total_wins = self.total_wins.saturating_add(1);
            let reason: Option<String> = match reason_for_kind(kind) {
                Some(text) => {
                    self.count_reason(text);
                    Some(text.to_string())
                },
                None => None,
            };
            self.entries.push(WinrateEntry { outcome: Outcome::Win, reason, timestamp: now_secs });
            assert(entries_view(self.entries@) =~= entries_view(before).push(
                (Outcome::Win, reason_text(kind), now_secs),
            ));
        }
    }
}

impl WinrateStore {
    /// A store that keeps the statistics in the file at `file_path`.
    pub fn new(file_path: String) -> (store: WinrateStore)
        ensures
            store.file_path == file_path,
    {
        WinrateStore { file_path }
    }

    /// Where the statistics are kept.
    pub fn path(&self) -> (path: &str)
        ensures
            path@ == self.file_path@,
    {
        self.file_path.as_str()
    }
}

} // verus!
