//! What the picker shows and works on: panes, modes, and the commands.
use vstd::prelude::*;
use crate::text::{copy_strings, owned, str_eq, views};

verus! {

/// What the event loop does after a key.
#[derive(Debug, PartialEq, Eq)]
pub enum Action {
    /// Keep going.
    Continue,
    /// Leave without running anything.
    Exit,
    /// Leave and run this command.
    Execute(String),
}

/// The pane that has the keyboard.
#[derive(Clone, Copy, Debug, PartialEq, Eq, Structural)]
pub enum ActivePane {
    Search,
    History,
    CollectionsList,
    CollectionItems,
}

/// The tab on show.
#[derive(Clone, Copy, Debug, PartialEq, Eq, Structural)]
pub enum ViewMode {
    History,
    Favorites,
    Collections,
}

/// Where typed text goes.
#[derive(Clone, Copy, Debug, PartialEq, Eq, Structural)]
pub enum InputMode {
    Normal,
    TagInput,
    CollectionInput,
    ImportExport,
}

/// Which collection dialog is open, if any.
#[derive(Clone, Copy, Debug, PartialEq, Eq, Structural)]
pub enum CollectionInputMode {
    /// No dialog open.
    Idle,
    AddToCollection,
    NewCollection,
    EditCollection,
    AddToCollectionSearch,
    ConfirmDeleteCollection,
    ConfirmDeleteCommand,
}

/// The step of the import/export dialog.
#[derive(Clone, Copy, Debug, PartialEq, Eq, Structural)]
pub enum ImportExportMode {
    Export,
    Import,
    ImportPreview,
}

/// A command as the picker lists it.
#[derive(Debug)]
pub struct Command {
    pub id: String,
    pub text: String,
    pub tags: Vec<String>,
    pub collection_ids: Vec<String>,
    pub favorite: bool,
    pub _context: Vec<String>,
    pub use_count: i32,
    pub last_used: Option<i64>,
    /// Times this command was recorded in the directory ctrlr was launched
    /// from; 0 when nothing was recorded.
    pub runs_here: i32,
}

/// A command as plain values.
pub struct CommandView {
    pub id: Seq<char>,
    pub text: Seq<char>,
    pub tags: Seq<Seq<char>>,
    pub collection_ids: Seq<Seq<char>>,
    pub favorite: bool,
    pub context: Seq<Seq<char>>,
    pub use_count: i32,
    pub last_used: Option<i64>,
    pub runs_here: i32,
}

impl View for Command {
    type V = CommandView;

    open spec fn view(&self) -> CommandView {
        CommandView {
            id: self.id@,
            text: self.text@,
            tags: views(self.tags@),
            collection_ids: views(self.collection_ids@),
            favorite: self.favorite,
            context: views(self._context@),
            use_count: self.use_count,
            last_used: self.last_used,
            runs_here: self.runs_here,
        }
    }
}

/// The later of two optional times; a time is later than none.
pub open spec fn later_time(a: Option<i64>, b: Option<i64>) -> Option<i64> {
    match (a, b) {
        (Some(x), Some(y)) => if y > x {
            Some(y)
        } else {
            Some(x)
        },
        (None, Some(y)) => Some(y),
        (_, None) => a,
    }
}

/// A command with what storage holds of it folded in: the stored favourite
/// mark, the larger use count and the later last use, and the stored tags and
/// collections where there are any.
pub open spec fn with_stored(
    c: CommandView,
    meta: Option<crate::storage::CommandMeta>,
    tags: Seq<Seq<char>>,
    collections: Seq<Seq<char>>,
) -> CommandView {
    let m = match meta {
        Some(m) => CommandView {
            favorite: m.favorite,
            use_count: if m.use_count > c.use_count {
                m.use_count
            } else {
                c.use_count
            },
            last_used: later_time(c.last_used, m.last_used),
            ..c
        },
        None => c,
    };
    let t = if tags.len() > 0 {
        CommandView { tags, ..m }
    } else {
        m
    };
    if collections.len() > 0 {
        CommandView { collection_ids: collections, ..t }
    } else {
        t
    }
}

impl Command {
    /// Folds in what storage holds of this command.
    pub fn apply_stored(
        &mut self,
        meta: Option<crate::storage::CommandMeta>,
        tags: Vec<String>,
        collections: Vec<String>,
    )
        ensures
            final(self)@ == with_stored(old(self)@, meta, views(tags@), views(collections@)),
    {
        if let Some(m) = meta {
            self.favorite = m.favorite;
            if m.use_count > self.use_count {
                self.use_count = m.use_count;
            }
            let later = match (self.last_used, m.last_used) {
                (Some(x), Some(y)) => y > x,
                (None, Some(_)) => true,
                (_, None) => false,
            };
            if later {
                self.last_used = m.last_used;
            }
        }
        if tags.len() > 0 {
            self.tags = tags;
        }
        if collections.len() > 0 {
            self.collection_ids = collections;
        }
    }

    /// A copy of this command.
    pub fn duplicate(&self) -> (r: Command)
        ensures
            r@ == self@,
    {
        Command {
            id: self.id.clone(),
            text: self.text.clone(),
            tags: copy_strings(&self.tags),
            collection_ids: copy_strings(&self.collection_ids),
            favorite: self.favorite,
            _context: copy_strings(&self._context),
            use_count: self.use_count,
            last_used: self.last_used,
            runs_here: self.runs_here,
        }
    }
}

/// The views of a list of commands.
pub open spec fn command_views(v: Seq<Command>) -> Seq<CommandView> {
    v.map_values(|c: Command| c@)
}

/// The ids of a list of commands.
pub open spec fn ids_of(cs: Seq<CommandView>) -> Seq<Seq<char>> {
    cs.map_values(|c: CommandView| c.id)
}

/// The history's commands followed by each stored command whose id is not
/// among them yet, in storage order.
pub open spec fn merged_with_stored(cs: Seq<CommandView>, stored: Seq<CommandView>) -> Seq<CommandView>
    decreases stored.len(),
{
    if stored.len() == 0 {
        cs
    } else {
        let before = merged_with_stored(cs, stored.drop_last());
        if ids_of(before).contains(stored.last().id) {
            before
        } else {
            before.push(stored.last())
        }
    }
}

fn holds_id(v: &Vec<Command>, id: &str) -> (r: bool)
    ensures
        r == ids_of(command_views(v@)).contains(id@),
{
    let ghost ids = ids_of(command_views(v@));
    let mut i: usize = 0;
    while i < v.len()
        invariant
            i <= v@.len(),
            ids == ids_of(command_views(v@)),
            forall|j: int| 0 <= j < i ==> ids[j] != id@,
        decreases v.len() - i,
    {
        if str_eq(v[i].id.as_str(), id) {
            assert(ids[i as int] == id@);
            return true;
        }
        i += 1;
    }
    false
}

/// Adds the commands only storage knows of, such as ones put in a collection
/// by hand, after the history's own: each stored command whose id is not
/// listed yet.
pub fn merge_stored(commands: Vec<Command>, stored: Vec<Command>) -> (r: Vec<Command>)
    ensures
        command_views(r@) == merged_with_stored(command_views(commands@), command_views(stored@)),
{
    let ghost cs = command_views(commands@);
    let ghost sv = command_views(stored@);
    let mut out = commands;
    let mut rest = stored;
    let n = rest.len();
    let mut i: usize = 0;
    while i < n
        invariant
            i <= n,
            n == sv.len(),
            command_views(rest@) == sv.skip(i as int),
            command_views(out@) == merged_with_stored(cs, sv.take(i as int)),
        decreases n - i,
    {
        let ghost rv = command_views(rest@);
        let ghost ro = rest@;
        assert(ro.len() == rv.len() && rv.len() == n - i);
        let c = rest.remove(0);
        assert(c == ro[0]);
        assert(rv[0] == ro[0]@);
        assert(rest@ =~= ro.drop_first());
        assert(command_views(rest@) =~= rv.drop_first());
        assert(rv.drop_first() =~= sv.skip(i + 1));
        assert(sv.take(i + 1).drop_last() =~= sv.take(i as int));
        assert(sv.take(i + 1).last() == sv[i as int]);
        if !holds_id(&out, c.id.as_str()) {
            let ghost before = command_views(out@);
            out.push(c);
            assert(command_views(out@) =~= before.push(sv[i as int]));
        }
        i += 1;
    }
    assert(sv.take(n as int) =~= sv);
    out
}

// ---------------------------------------------------------------------------
// Ranking
// ---------------------------------------------------------------------------

/// Points for how recently a command ran, `age` seconds ago.
pub open spec fn recency_points(last_used: Option<i64>, now: int) -> int {
    match last_used {
        Some(ts) => {
            let age = now - ts;
            if age < 3600 {
                50
            } else if age < 86400 {
                20
            } else if age < 604800 {
                10
            } else {
                0
            }
        },
        None => 0,
    }
}

/// Points for having been run in the launch directory: above recency, below
/// a favourite, and capped so one hot command cannot dominate.
pub open spec fn here_points(runs_here: int) -> int {
    if runs_here > 0 {
        60 + if runs_here < 20 {
            runs_here
        } else {
            20
        }
    } else {
        0
    }
}

/// Points for being a favourite: more than the most that having run here can
/// add (80), so that, other things equal, a favourite comes first.
pub open spec fn favorite_points(favorite: bool) -> int {
    if favorite {
        100
    } else {
        0
    }
}

/// The score a command ranks by, given its fuzzy-match score: ten points per
/// point of match, two per use, then recency, favourite and run-here points.
pub open spec fn ranking_score(c: CommandView, fuzzy: int, now: int) -> int {
    fuzzy * 10 + 2 * c.use_count + recency_points(c.last_used, now) + favorite_points(c.favorite)
        + here_points(c.runs_here as int)
}

/// `a`, matching with score `fa`, ranks above `b`, matching with score `fb`:
/// a higher ranking score, or the same score and more uses.
pub open spec fn ranks_above(a: CommandView, fa: int, b: CommandView, fb: int, now: int) -> bool {
    let ka = ranking_score(a, fa, now);
    let kb = ranking_score(b, fb, now);
    ka > kb || (ka == kb && a.use_count > b.use_count)
}

pub open spec fn fits_i64(x: int) -> bool {
    i64::MIN <= x <= i64::MAX
}

/// Ranks a command: ten points per point of fuzzy match, two per use, up to
/// 50 for recency, 100 for a favourite and 60 to 80 for having been run here.
/// Every partial sum must fit in an `i64`.
pub fn compute_ranking_score(cmd: &Command, fuzzy: i64, now: i64) -> (r: i64)
    requires
        fits_i64(fuzzy * 10),
        fits_i64(fuzzy * 10 + 2 * cmd.use_count),
        fits_i64(ranking_score(cmd@, fuzzy as int, now as int)),
    ensures
        r == ranking_score(cmd@, fuzzy as int, now as int),
{
    let usage: i64 = cmd.use_count as i64 * 2;
    let recency: i64 = match cmd.last_used {
        Some(ts) => {
            let age = now as i128 - ts as i128;
            if age < 3600 {
                50
            } else if age < 86400 {
                20
            } else if age < 604800 {
                10
            } else {
                0
            }
        },
        None => 0,
    };
    let favorite: i64 = if cmd.favorite {
        100
    } else {
        0
    };
    let here: i64 = if cmd.runs_here > 0 {
        60 + if cmd.runs_here < 20 {
            cmd.runs_here as i64
        } else {
            20
        }
    } else {
        0
    };
    fuzzy * 10 + usage + recency + favorite + here
}

/// Other things equal, the list puts favourites first, then commands run in
/// this directory, then recent ones, then frequent ones. At an equal match and
/// equal use counts: a favourite ranks above a command that is not one but
/// ran as recently, even one run here, and above one that matches a step
/// better when it was run here no more; between equals in being a favourite,
/// one run here ranks above one that was not, however recently that ran, and
/// above one that matches a step better and ran as recently; between equals
/// in those, the more recent ranks above. With all of that equal, the one
/// used more ranks above.
pub proof fn law_favourites_then_here_then_recent_then_frequent(
    a: CommandView,
    b: CommandView,
    f: int,
    now: int,
)
    ensures
        a.favorite && !b.favorite && a.use_count == b.use_count && recency_points(a.last_used, now)
            == recency_points(b.last_used, now) ==> ranks_above(a, f, b, f, now),
        a.favorite && !b.favorite && a.use_count == b.use_count && recency_points(a.last_used, now)
            == recency_points(b.last_used, now) && here_points(a.runs_here as int) == here_points(
            b.runs_here as int,
        ) ==> ranks_above(a, f, b, f + 1, now),
        a.favorite == b.favorite && a.runs_here > 0 && b.runs_here <= 0 && a.use_count == b.use_count
            ==> ranks_above(a, f, b, f, now),
        a.favorite == b.favorite && a.runs_here > 0 && b.runs_here <= 0 && a.use_count == b.use_count
            && recency_points(a.last_used, now) == recency_points(b.last_used, now) ==> ranks_above(
            a,
            f,
            b,
            f + 1,
            now,
        ),
        a.favorite == b.favorite && here_points(a.runs_here as int) == here_points(b.runs_here as int)
            && a.use_count == b.use_count && recency_points(a.last_used, now) > recency_points(
            b.last_used,
            now,
        ) ==> ranks_above(a, f, b, f, now),
        a.favorite == b.favorite && here_points(a.runs_here as int) == here_points(b.runs_here as int)
            && recency_points(a.last_used, now) == recency_points(b.last_used, now) && a.use_count
            > b.use_count ==> ranks_above(a, f, b, f, now),
{
}

// ---------------------------------------------------------------------------
// The offer to install the shell integration
// ---------------------------------------------------------------------------

/// Launches to stay quiet for after the offer is declined. Counted in
/// launches because ctrlr has no scheduler of its own.
pub const INTEGRATION_REASK_AFTER: u32 = 40;

/// Declines after which the offer is dropped for this script.
pub const INTEGRATION_MAX_DECLINES: u32 = 3;

/// A declined offer, as stored between launches.
#[derive(Debug, PartialEq, Eq)]
pub struct Dismissal {
    /// The script that was declined; a different one is a different offer.
    pub fingerprint: String,
    /// Launches counted since the dismissal.
    pub launches: u32,
    /// How often this script has been declined.
    pub declines: u32,
}

/// A dismissal as plain values: script, launches, declines.
pub type DismissalView = (Seq<char>, u32, u32);

pub open spec fn dismissal_view(d: Dismissal) -> DismissalView {
    (d.fingerprint@, d.launches, d.declines)
}

pub open spec fn opt_dismissal_view(d: Option<Dismissal>) -> Option<DismissalView> {
    match d {
        Some(x) => Some(dismissal_view(x)),
        None => None,
    }
}

/// What to do about the offer this launch.
#[derive(Debug)]
pub struct IntegrationOffer {
    pub show: bool,
    /// The record to store, when it changed.
    pub record: Option<Dismissal>,
    /// Whether declining now is the last decline this script gets.
    pub final_offer: bool,
}

/// The offer for a launch: shown, the record to store, and whether it is the
/// last. A stored record for another script is no record at all.
pub open spec fn offer_spec(stored: Option<DismissalView>, fingerprint: Seq<char>) -> (bool, Option<DismissalView>, bool) {
    match stored {
        Some(d) if d.0 == fingerprint => {
            if d.2 >= INTEGRATION_MAX_DECLINES {
                (false, None, false)
            } else {
                let launches = if d.1 == u32::MAX {
                    u32::MAX as int
                } else {
                    d.1 + 1
                };
                if launches >= INTEGRATION_REASK_AFTER {
                    (true, None, d.2 + 1 >= INTEGRATION_MAX_DECLINES)
                } else {
                    (false, Some((fingerprint, launches as u32, d.2)), false)
                }
            }
        },
        _ => (true, None, INTEGRATION_MAX_DECLINES <= 1),
    }
}

/// Decides the offer for this launch from the stored record (already read
/// back; `None` where there is none or it could not be read).
///
/// Never declined: shown. Declined too often: quiet for good. Otherwise quiet
/// while the launches since the last decline stay under the threshold, each
/// launch counted in the returned record, and shown again once it is reached.
pub fn integration_offer(stored: Option<Dismissal>, fingerprint: &str) -> (r: IntegrationOffer)
    ensures
        (r.show, opt_dismissal_view(r.record), r.final_offer) == offer_spec(
            opt_dismissal_view(stored),
            fingerprint@,
        ),
{
    let dismissal = match stored {
        Some(d) => if str_eq(d.fingerprint.as_str(), fingerprint) {
            Some(d)
        } else {
            None
        },
        None => None,
    };
    let d = match dismissal {
        Some(d) => d,
        None => {
            return IntegrationOffer {
                show: true,
                record: None,
                final_offer: INTEGRATION_MAX_DECLINES <= 1,
            };
        },
    };
    if d.declines >= INTEGRATION_MAX_DECLINES {
        return IntegrationOffer { show: false, record: None, final_offer: false };
    }
    let launches = d.launches.saturating_add(1);
    if launches >= INTEGRATION_REASK_AFTER {
        return IntegrationOffer {
            show: true,
            record: None,
            final_offer: d.declines + 1 >= INTEGRATION_MAX_DECLINES,
        };
    }
    IntegrationOffer {
        show: false,
        record: Some(
            Dismissal { fingerprint: owned(fingerprint), launches, declines: d.declines },
        ),
        final_offer: false,
    }
}

/// The record after the offer for `fingerprint` is declined: one more
/// decline of this script, launches counted from zero.
pub open spec fn decline_spec(previous: Option<DismissalView>, fingerprint: Seq<char>) -> DismissalView {
    let declines = match previous {
        Some(d) if d.0 == fingerprint => if d.2 == u32::MAX {
            u32::MAX
        } else {
            (d.2 + 1) as u32
        },
        _ => 1u32,
    };
    (fingerprint, 0u32, declines)
}

/// The record to store when the offer is declined.
pub fn decline(previous: Option<Dismissal>, fingerprint: &str) -> (r: Dismissal)
    ensures
        dismissal_view(r) == decline_spec(opt_dismissal_view(previous), fingerprint@),
{
    let before: u32 = match previous {
        Some(d) => if str_eq(d.fingerprint.as_str(), fingerprint) {
            d.declines
        } else {
            0
        },
        None => 0,
    };
    Dismissal { fingerprint: owned(fingerprint), launches: 0, declines: before.saturating_add(1) }
}

/// The stored record after `n` quiet launches since the last decline.
pub open spec fn record_after(start: DismissalView, n: nat) -> Option<DismissalView>
    decreases n,
{
    if n == 0 {
        Some(start)
    } else {
        match record_after(start, (n - 1) as nat) {
            Some(d) => offer_spec(Some(d), start.0).1,
            None => None,
        }
    }
}

/// After a decline that is not yet the last allowed, the offer stays quiet
/// for the next `INTEGRATION_REASK_AFTER - 1` launches, each counted, and is
/// shown on the launch after them; after the last allowed decline it is
/// never shown again for that script.
pub proof fn law_quiet_until_reask(previous: Option<DismissalView>, fingerprint: Seq<char>, n: nat)
    ensures
        ({
            let d = decline_spec(previous, fingerprint);
            &&& d.2 < INTEGRATION_MAX_DECLINES ==> {
                &&& n < INTEGRATION_REASK_AFTER - 1 ==> record_after(d, n) == Some(
                    (fingerprint, n as u32, d.2),
                ) && !offer_spec(record_after(d, n), fingerprint).0
                &&& n == INTEGRATION_REASK_AFTER - 1 ==> record_after(d, n) == Some(
                    (fingerprint, n as u32, d.2),
                ) && offer_spec(record_after(d, n), fingerprint).0
            }
            &&& d.2 >= INTEGRATION_MAX_DECLINES ==> !offer_spec(Some(d), fingerprint).0
        }),
    decreases n,
{
    if n > 0 {
        law_quiet_until_reask(previous, fingerprint, (n - 1) as nat);
    }
}

} // verus!
