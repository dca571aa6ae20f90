//! The menu registry: at most one live menu for each channel.

use crate::error::MenuError;
use crate::text::{decimal, push_decimal, str_equal};
use vstd::prelude::*;

verus! {

/// The kinds of reaction menu.
#[derive(Clone, Copy, Debug, PartialEq, Eq, Structural)]
pub enum MenuKind {
    /// A vote among the nominated movies of a guild.
    MovieVotes,
}

/// The name under which a kind of menu is stored.
pub open spec fn kind_name(kind: MenuKind) -> Seq<char> {
    match kind {
        MenuKind::MovieVotes => "movie_votes"@,
    }
}

impl MenuKind {
    /// The name under which this kind of menu is stored.
    pub fn name(&self) -> (name: &'static str)
        ensures
            name@ == kind_name(*self),
    {
        match self {
            MenuKind::MovieVotes => "movie_votes",
        }
    }

    /// The kind that is stored under `name`, if there is one.
    pub fn parse(name: &str) -> (kind: Option<MenuKind>)
        ensures
            match kind {
                Some(k) => name@ == kind_name(k),
                None => forall|k: MenuKind| name@ != kind_name(k),
            },
    {
        if str_equal(name, "movie_votes") {
            Some(MenuKind::MovieVotes)
        } else {
            None
        }
    }
}

/// The mapping of a menu with its tokens as sequences of characters.
pub open spec fn mapping_view(mapping: Seq<(String, i32)>) -> Seq<(Seq<char>, i32)> {
    mapping.map_values(|e: (String, i32)| (e.0@, e.1))
}

/// A copy of a mapping that holds the same tokens and candidates.
pub fn copy_mapping(mapping: &Vec<(String, i32)>) -> (copy: Vec<(String, i32)>)
    ensures
        mapping_view(copy@) == mapping_view(mapping@),
{
    let mut copy: Vec<(String, i32)> = Vec::new();
    let mut i: usize = 0;
    while i < mapping.len()
        invariant
            i <= mapping.len(),
            copy@.len() == i,
            forall|j: int| 0 <= j < i ==> copy@[j].0@ == mapping@[j].0@ && copy@[j].1 == mapping@[j].1,
        decreases mapping.len() - i,
    {
        let token = mapping[i].0.clone();
        copy.push((token, mapping[i].1));
        i += 1;
    }
    assert(mapping_view(copy@) =~= mapping_view(mapping@));
    copy
}

/// A live menu: the message that carries it, its kind, and the candidate
/// that each emoji token stands for, in menu order.
#[derive(Clone, Debug, PartialEq, Eq)]
pub struct MenuRecord {
    /// The channel in which the menu is shown.
    pub location: u64,
    /// The message that carries the menu.
    pub menu_id: u64,
    pub kind: MenuKind,
    pub mapping: Vec<(String, i32)>,
}

/// What a `MenuRecord` holds, with its tokens as sequences of characters.
pub struct MenuRecordView {
    pub location: u64,
    pub menu_id: u64,
    pub kind: MenuKind,
    pub mapping: Seq<(Seq<char>, i32)>,
}

impl View for MenuRecord {
    type V = MenuRecordView;

    open spec fn view(&self) -> MenuRecordView {
        MenuRecordView {
            location: self.location,
            menu_id: self.menu_id,
            kind: self.kind,
            mapping: mapping_view(self.mapping@),
        }
    }
}

impl MenuRecord {
    /// A copy that holds the same values.
    pub fn duplicate(&self) -> (copy: MenuRecord)
        ensures
            copy@ == self@,
    {
        MenuRecord {
            location: self.location,
            menu_id: self.menu_id,
            kind: self.kind,
            mapping: copy_mapping(&self.mapping),
        }
    }
}

/// The views of a sequence of records, in the same order.
pub open spec fn record_views(records: Seq<MenuRecord>) -> Seq<MenuRecordView> {
    records.map_values(|r: MenuRecord| r@)
}

/// No two records are shown in the same channel.
pub open spec fn one_per_location(records: Seq<MenuRecordView>) -> bool {
    forall|i: int, j: int|
        0 <= i < j < records.len() ==> #[trigger] records[i].location
            != #[trigger] records[j].location
}

/// The records shown in a channel.
pub open spec fn menus_at(records: Seq<MenuRecordView>, location: u64) -> Seq<MenuRecordView> {
    records.filter(|r: MenuRecordView| r.location == location)
}

/// The records shown in every other channel.
pub open spec fn menus_elsewhere(records: Seq<MenuRecordView>, location: u64) -> Seq<
    MenuRecordView,
> {
    records.filter(|r: MenuRecordView| r.location != location)
}

/// The registry after a menu is opened: whatever was shown in its channel is
/// retired, and the new record stands at the end.
pub open spec fn opened(records: Seq<MenuRecordView>, record: MenuRecordView) -> Seq<
    MenuRecordView,
> {
    menus_elsewhere(records, record.location).push(record)
}

/// The registry after the menu of a message is closed.
pub open spec fn closed(records: Seq<MenuRecordView>, location: u64, menu_id: u64) -> Seq<
    MenuRecordView,
> {
    records.filter(|r: MenuRecordView| !(r.location == location && r.menu_id == menu_id))
}

/// The first record for the message `menu_id` in the channel `location`.
pub open spec fn find_menu(records: Seq<MenuRecordView>, location: u64, menu_id: u64) -> Option<
    MenuRecordView,
>
    decreases records.len(),
{
    if records.len() == 0 {
        None
    } else if records.first().location == location && records.first().menu_id == menu_id {
        Some(records.first())
    } else {
        find_menu(records.drop_first(), location, menu_id)
    }
}

/// A found record belongs to the message that was asked for and stands in
/// the registry; where none is found, no record belongs to that message.
pub proof fn lemma_find_menu(records: Seq<MenuRecordView>, location: u64, menu_id: u64)
    ensures
        match find_menu(records, location, menu_id) {
            Some(r) => r.location == location && r.menu_id == menu_id && records.contains(r),
            None => forall|i: int|
                0 <= i < records.len() ==> !(#[trigger] records[i].location == location
                    && records[i].menu_id == menu_id),
        },
    decreases records.len(),
{
    if records.len() > 0 {
        if records.first().location == location && records.first().menu_id == menu_id {
            assert(records[0] == records.first());
        } else {
            let rest = records.drop_first();
            lemma_find_menu(rest, location, menu_id);
            match find_menu(rest, location, menu_id) {
                Some(r) => {
                    let k = choose|k: int| 0 <= k < rest.len() && rest[k] == r;
                    assert(records[k + 1] == r);
                },
                None => {
                    assert forall|i: int| 0 <= i < records.len() implies !(
                    #[trigger] records[i].location == location && records[i].menu_id
                        == menu_id) by {
                        if i > 0 {
                            assert(rest[i - 1] == records[i]);
                        }
                    }
                },
            }
        }
    }
}

/// A record for a channel that shows none can be added without breaking the
/// rule of one menu for each channel.
pub proof fn lemma_one_per_location_push(records: Seq<MenuRecordView>, record: MenuRecordView)
    requires
        one_per_location(records),
        menus_at(records, record.location).len() == 0,
    ensures
        one_per_location(records.push(record)),
{
    let pushed = records.push(record);
    let here = |r: MenuRecordView| r.location == record.location;
    assert forall|i: int, j: int| 0 <= i < j < pushed.len() implies pushed[i].location
        != pushed[j].location by {
        if j == records.len() {
            if here(records[i]) {
                records.lemma_filter_contains(here, i);
                assert(records.filter(here).len() > 0);
            }
        } else {
            assert(pushed[i] == records[i]);
            assert(pushed[j] == records[j]);
        }
    }
}

/// Records picked out of a registry that obeys the rule of one menu for each
/// channel obey it too.
pub proof fn lemma_one_per_location_filter(
    records: Seq<MenuRecordView>,
    keep: spec_fn(MenuRecordView) -> bool,
)
    requires
        one_per_location(records),
    ensures
        one_per_location(records.filter(keep)),
    decreases records.len(),
{
    reveal(Seq::filter);
    if records.len() > 0 {
        let earlier = records.drop_last();
        let last = records.last();
        assert forall|i: int, j: int| 0 <= i < j < earlier.len() implies earlier[i].location
            != earlier[j].location by {
            assert(earlier[i] == records[i]);
            assert(earlier[j] == records[j]);
        }
        lemma_one_per_location_filter(earlier, keep);
        if keep(last) {
            let kept = earlier.filter(keep);
            let here = |r: MenuRecordView| r.location == last.location;
            assert(kept.filter(here).len() == 0) by {
                assert forall|k: int| 0 <= k < kept.len() implies !here(#[trigger] kept[k]) by {
                    assert(kept.contains(kept[k]));
                    earlier.lemma_filter_contains_rev(keep, kept[k]);
                    let at = choose|at: int| 0 <= at < earlier.len() && earlier[at] == kept[k];
                    assert(records[at] == earlier[at]);
                    assert(records[records.len() - 1] == last);
                }
                assert(kept.all(|r: MenuRecordView| !here(r)));
                kept.lemma_all_neg_filter_empty(here);
            }
            lemma_one_per_location_push(kept, last);
        }
    }
}

/// After a menu is opened no record is left in its channel but its own.
pub proof fn lemma_opened_is_alone(records: Seq<MenuRecordView>, record: MenuRecordView)
    ensures
        menus_at(opened(records, record), record.location) == seq![record],
{
    let here = |r: MenuRecordView| r.location == record.location;
    let elsewhere = |r: MenuRecordView| r.location != record.location;
    let kept = records.filter(elsewhere);
    assert forall|k: int| 0 <= k < kept.len() implies !here(#[trigger] kept[k]) by {
        records.lemma_filter_pred(elsewhere, k);
    }
    assert(kept.all(|r: MenuRecordView| !here(r)));
    kept.lemma_all_neg_filter_empty(here);
    kept.lemma_filter_push(record, here);
    assert(kept.push(record).filter(here) =~= seq![record]);
}

/// Opening a menu keeps the rule of one menu for each channel.
pub proof fn lemma_opened_keeps_one_per_location(
    records: Seq<MenuRecordView>,
    record: MenuRecordView,
)
    requires
        one_per_location(records),
    ensures
        one_per_location(opened(records, record)),
{
    let here = |r: MenuRecordView| r.location == record.location;
    let elsewhere = |r: MenuRecordView| r.location != record.location;
    let kept = records.filter(elsewhere);
    lemma_one_per_location_filter(records, elsewhere);
    assert forall|k: int| 0 <= k < kept.len() implies !here(#[trigger] kept[k]) by {
        records.lemma_filter_pred(elsewhere, k);
    }
    assert(kept.all(|r: MenuRecordView| !here(r)));
    kept.lemma_all_neg_filter_empty(here);
    lemma_one_per_location_push(kept, record);
}

/// A lookup of the menu that was just opened finds it.
pub proof fn lemma_find_opened(records: Seq<MenuRecordView>, record: MenuRecordView)
    ensures
        find_menu(opened(records, record), record.location, record.menu_id) == Some(record),
{
    let elsewhere = |r: MenuRecordView| r.location != record.location;
    let kept = records.filter(elsewhere);
    assert forall|k: int| 0 <= k < kept.len() implies (#[trigger] kept[k]).location
        != record.location by {
        records.lemma_filter_pred(elsewhere, k);
    }
    lemma_find_after_strangers(kept, record);
}

/// Records of other channels before a record do not hide it from a lookup.
proof fn lemma_find_after_strangers(strangers: Seq<MenuRecordView>, record: MenuRecordView)
    requires
        forall|k: int|
            0 <= k < strangers.len() ==> (#[trigger] strangers[k]).location != record.location,
    ensures
        find_menu(strangers.push(record), record.location, record.menu_id) == Some(record),
    decreases strangers.len(),
{
    let all = strangers.push(record);
    if strangers.len() == 0 {
        assert(all.first() == record);
    } else {
        assert(all.first() == strangers[0]);
        assert(all.drop_first() =~= strangers.drop_first().push(record));
        assert forall|k: int| 0 <= k < strangers.drop_first().len() implies (
        #[trigger] strangers.drop_first()[k]).location != record.location by {
            assert(strangers.drop_first()[k] == strangers[k + 1]);
        }
        lemma_find_after_strangers(strangers.drop_first(), record);
    }
}

/// Two menus opened in one channel: a lookup finds only the second, and the
/// first is gone.
pub proof fn lemma_reopen_replaces_menu(
    records: Seq<MenuRecordView>,
    first: MenuRecordView,
    second: MenuRecordView,
)
    requires
        first.location == second.location,
    ensures
        menus_at(opened(opened(records, first), second), second.location) == seq![second],
        find_menu(opened(opened(records, first), second), second.location, second.menu_id)
            == Some(second),
        first.menu_id != second.menu_id ==> find_menu(
            opened(opened(records, first), second),
            first.location,
            first.menu_id,
        ) is None,
{
    let once = opened(records, first);
    let twice = opened(once, second);
    lemma_opened_is_alone(once, second);
    lemma_find_opened(once, second);
    if first.menu_id != second.menu_id {
        lemma_find_menu(twice, first.location, first.menu_id);
        match find_menu(twice, first.location, first.menu_id) {
            Some(r) => {
                let k = choose|k: int| 0 <= k < twice.len() && twice[k] == r;
                twice.lemma_filter_contains(|r: MenuRecordView| r.location == second.location, k);
                assert(seq![second].contains(r));
            },
            None => {},
        }
    }
}

/// The registry of live menus. It never holds two menus for one channel.
pub struct MenuRegistry {
    records: Vec<MenuRecord>,
}

impl View for MenuRegistry {
    type V = Seq<MenuRecordView>;

    closed spec fn view(&self) -> Seq<MenuRecordView> {
        record_views(self.records@)
    }
}

impl MenuRegistry {
    #[verifier::type_invariant]
    spec fn one_menu_each(&self) -> bool {
        one_per_location(record_views(self.records@))
    }

    /// A registry without menus.
    pub fn new() -> (registry: MenuRegistry)
        ensures
            registry@ == Seq::<MenuRecordView>::empty(),
    {
        let registry = MenuRegistry { records: Vec::new() };
        assert(registry@ =~= Seq::<MenuRecordView>::empty());
        registry
    }

    /// The number of live menus, over all channels.
    pub fn len(&self) -> (n: usize)
        ensures
            n == self@.len(),
            one_per_location(self@),
    {
        proof {
            use_type_invariant(self);
        }
        self.records.len()
    }

    /// Registers the menu that the message `menu_id` carries in the channel
    /// `location`. Every menu that was live in that channel is retired first.
    pub fn open(&mut self, location: u64, menu_id: u64, kind: MenuKind, mapping: Vec<(String, i32)>)
        ensures
            final(self)@ == opened(
                old(self)@,
                MenuRecordView { location, menu_id, kind, mapping: mapping_view(mapping@) },
            ),
            one_per_location(final(self)@),
    {
        proof {
            use_type_invariant(&*self);
        }
        let ghost before = record_views(self.records@);
        let mut kept: Vec<MenuRecord> = Vec::new();
        let mut i: usize = 0;
        assert(record_views(kept@) =~= menus_elsewhere(before.take(0), location)) by {
            reveal(Seq::filter);
        }
        while i < self.records.len()
            invariant
                i <= self.records.len(),
                before == record_views(self.records@),
                record_views(kept@) == menus_elsewhere(before.take(i as int), location),
            decreases self.records.len() - i,
        {
            proof {
                before.take(i as int).lemma_filter_push(
                    before[i as int],
                    |r: MenuRecordView| r.location != location,
                );
                assert(before.take(i + 1) =~= before.take(i as int).push(before[i as int]));
            }
            if self.records[i].location != location {
                let ghost earlier = kept@;
                let copy = self.records[i].duplicate();
                kept.push(copy);
                assert(record_views(kept@) =~= record_views(earlier).push(before[i as int]));
            }
            i += 1;
        }
        assert(before.take(i as int) =~= before);
        let ghost earlier = kept@;
        let record = MenuRecord { location, menu_id, kind, mapping };
        kept.push(record);
        proof {
            assert(record_views(kept@) =~= record_views(earlier).push(record@));
            lemma_opened_keeps_one_per_location(before, record@);
        }
        self.records = kept;
    }

    /// The mapping of the menu that the message `menu_id` carries in the
    /// channel `location`, or `MenuNotFound` where no such menu is live.
    pub fn lookup(&self, location: u64, menu_id: u64) -> (found: Result<
        Vec<(String, i32)>,
        MenuError,
    >)
        ensures
            match found {
                Ok(mapping) => find_menu(self@, location, menu_id) matches Some(record)
                    && mapping_view(mapping@) == record.mapping,
                Err(error) => error == MenuError::MenuNotFound && find_menu(
                    self@,
                    location,
                    menu_id,
                ) is None,
            },
    {
        let ghost all = record_views(self.records@);
        let mut i: usize = 0;
        assert(all.skip(0) =~= all);
        while i < self.records.len()
            invariant
                i <= self.records.len(),
                all == record_views(self.records@),
                find_menu(all, location, menu_id) == find_menu(all.skip(i as int), location, menu_id),
            decreases self.records.len() - i,
        {
            proof {
                assert(all.skip(i as int).first() == all[i as int]);
                assert(all.skip(i as int).drop_first() =~= all.skip(i + 1));
            }
            if self.records[i].location == location && self.records[i].menu_id == menu_id {
                return Ok(copy_mapping(&self.records[i].mapping));
            }
            i += 1;
        }
        Err(MenuError::MenuNotFound)
    }

    /// The message that carries the live menu of a channel, if the channel
    /// shows one.
    pub fn active(&self, location: u64) -> (menu_id: Option<u64>)
        ensures
            match menu_id {
                Some(id) => menus_at(self@, location).len() == 1 && menus_at(
                    self@,
                    location,
                ).first().menu_id == id,
                None => menus_at(self@, location).len() == 0,
            },
    {
        proof {
            use_type_invariant(self);
        }
        let ghost all = record_views(self.records@);
        let mut i: usize = 0;
        assert(menus_at(all.take(0), location).len() == 0) by {
            reveal(Seq::filter);
        }
        while i < self.records.len()
            invariant
                i <= self.records.len(),
                all == record_views(self.records@),
                one_per_location(all),
                menus_at(all.take(i as int), location).len() == 0,
            decreases self.records.len() - i,
        {
            if self.records[i].location == location {
                proof {
                    let here = |r: MenuRecordView| r.location == location;
                    let head = all.take(i + 1);
                    let tail = all.skip(i + 1);
                    assert(head =~= all.take(i as int).push(all[i as int]));
                    all.take(i as int).lemma_filter_push(all[i as int], here);
                    assert forall|k: int| 0 <= k < tail.len() implies !here(#[trigger] tail[k]) by {
                        assert(tail[k] == all[i + 1 + k]);
                    }
                    assert(tail.all(|r: MenuRecordView| !here(r)));
                    tail.lemma_all_neg_filter_empty(here);
                    Seq::filter_distributes_over_add(head, tail, here);
                    assert(head + tail =~= all);
                    assert(all.filter(here) =~= seq![all[i as int]]);
                }
                return Some(self.records[i].menu_id);
            }
            proof {
                assert(all.take(i + 1) =~= all.take(i as int).push(all[i as int]));
                all.take(i as int).lemma_filter_push(
                    all[i as int],
                    |r: MenuRecordView| r.location == location,
                );
            }
            i += 1;
        }
        assert(all.take(i as int) =~= all);
        None
    }

    /// Retires the menu that the message `menu_id` carries in the channel
    /// `location`. Where no such menu is live, nothing changes.
    pub fn close(&mut self, location: u64, menu_id: u64)
        ensures
            final(self)@ == closed(old(self)@, location, menu_id),
            one_per_location(final(self)@),
            find_menu(final(self)@, location, menu_id) is None,
    {
        proof {
            use_type_invariant(&*self);
        }
        let ghost before = record_views(self.records@);
        let mut kept: Vec<MenuRecord> = Vec::new();
        let mut i: usize = 0;
        assert(record_views(kept@) =~= closed(before.take(0), location, menu_id)) by {
            reveal(Seq::filter);
        }
        while i < self.records.len()
            invariant
                i <= self.records.len(),
                before == record_views(self.records@),
                record_views(kept@) == closed(before.take(i as int), location, menu_id),
            decreases self.records.len() - i,
        {
            proof {
                before.take(i as int).lemma_filter_push(
                    before[i as int],
                    |r: MenuRecordView| !(r.location == location && r.menu_id == menu_id),
                );
                assert(before.take(i + 1) =~= before.take(i as int).push(before[i as int]));
            }
            if !(self.records[i].location == location && self.records[i].menu_id == menu_id) {
                let ghost earlier = kept@;
                let copy = self.records[i].duplicate();
                kept.push(copy);
                assert(record_views(kept@) =~= record_views(earlier).push(before[i as int]));
            }
            i += 1;
        }
        assert(before.take(i as int) =~= before);
        proof {
            lemma_one_per_location_filter(
                before,
                |r: MenuRecordView| !(r.location == location && r.menu_id == menu_id),
            );
            lemma_closed_is_gone(before, location, menu_id);
        }
        self.records = kept;
    }
}

/// A closed menu is not found again.
pub proof fn lemma_closed_is_gone(records: Seq<MenuRecordView>, location: u64, menu_id: u64)
    ensures
        find_menu(closed(records, location, menu_id), location, menu_id) is None,
{
    let others = |r: MenuRecordView| !(r.location == location && r.menu_id == menu_id);
    let left = records.filter(others);
    lemma_find_menu(left, location, menu_id);
    match find_menu(left, location, menu_id) {
        Some(r) => {
            let k = choose|k: int| 0 <= k < left.len() && left[k] == r;
            records.lemma_filter_pred(others, k);
        },
        None => {},
    }
}

/// Closing a menu that is not live changes nothing, so closing twice is the
/// same as closing once.
pub proof fn lemma_close_is_idempotent(records: Seq<MenuRecordView>, location: u64, menu_id: u64)
    ensures
        closed(closed(records, location, menu_id), location, menu_id) == closed(
            records,
            location,
            menu_id,
        ),
        find_menu(records, location, menu_id) is None ==> closed(records, location, menu_id)
            == records,
{
    let others = |r: MenuRecordView| !(r.location == location && r.menu_id == menu_id);
    let left = records.filter(others);
    assert forall|k: int| 0 <= k < left.len() implies others(#[trigger] left[k]) by {
        records.lemma_filter_pred(others, k);
    }
    lemma_filter_keeps_all(left, others);
    if find_menu(records, location, menu_id) is None {
        lemma_find_menu(records, location, menu_id);
        lemma_filter_keeps_all(records, others);
    }
}

/// A filter that every element passes changes nothing.
pub proof fn lemma_filter_keeps_all<A>(s: Seq<A>, keep: spec_fn(A) -> bool)
    requires
        forall|k: int| 0 <= k < s.len() ==> keep(#[trigger] s[k]),
    ensures
        s.filter(keep) == s,
    decreases s.len(),
{
    reveal(Seq::filter);
    if s.len() > 0 {
        let earlier = s.drop_last();
        assert forall|k: int| 0 <= k < earlier.len() implies keep(#[trigger] earlier[k]) by {
            assert(earlier[k] == s[k]);
        }
        lemma_filter_keeps_all(earlier, keep);
        assert(keep(s[s.len() - 1]));
        assert(earlier.push(s.last()) =~= s);
    } else {
        assert(s.filter(keep) =~= s);
    }
}

/// The key under which the keyed store holds the menu of a message:
/// `reaction_menu:`, the channel, the message and the kind, with colons
/// between them.
pub open spec fn menu_key(location: u64, menu_id: u64, kind: MenuKind) -> Seq<char> {
    "reaction_menu:"@ + decimal(location as nat) + ":"@ + decimal(menu_id as nat) + ":"@
        + kind_name(kind)
}

/// The pattern that matches the keys of every menu of a channel.
pub open spec fn location_pattern(location: u64) -> Seq<char> {
    "reaction_menu:"@ + decimal(location as nat) + ":*"@
}

/// The pattern that matches the keys of the menus of one message, whatever
/// their kind.
pub open spec fn message_pattern(location: u64, menu_id: u64) -> Seq<char> {
    "reaction_menu:"@ + decimal(location as nat) + ":"@ + decimal(menu_id as nat) + ":*"@
}

/// What follows the last colon of a text: the whole text where it has no
/// colon.
pub open spec fn last_segment(text: Seq<char>) -> Seq<char>
    decreases text.len(),
{
    if text.len() == 0 {
        Seq::empty()
    } else if text.last() == ':' {
        Seq::empty()
    } else {
        last_segment(text.drop_last()).push(text.last())
    }
}

/// The kind that a key names in its last segment, if it names one.
pub open spec fn key_kind(key: Seq<char>) -> Option<MenuKind> {
    if last_segment(key) == kind_name(MenuKind::MovieVotes) {
        Some(MenuKind::MovieVotes)
    } else {
        None
    }
}

impl MenuRecord {
    /// The key under which the keyed store holds this record.
    pub fn key(&self) -> (key: String)
        ensures
            key@ == menu_key(self.location, self.menu_id, self.kind),
    {
        store_key(self.location, self.menu_id, self.kind)
    }
}

/// The key under which the keyed store holds the menu of a message.
pub fn store_key(location: u64, menu_id: u64, kind: MenuKind) -> (key: String)
    ensures
        key@ == menu_key(location, menu_id, kind),
{
    let mut key = String::from_str("reaction_menu:");
    push_decimal(&mut key, location);
    key.append(":");
    push_decimal(&mut key, menu_id);
    key.append(":");
    key.append(kind.name());
    assert(key@ =~= menu_key(location, menu_id, kind));
    key
}

/// The pattern by which the keys of every menu of a channel are found, to
/// retire them before a new menu is opened there.
pub fn delete_pattern(location: u64) -> (pattern: String)
    ensures
        pattern@ == location_pattern(location),
{
    let mut pattern = String::from_str("reaction_menu:");
    push_decimal(&mut pattern, location);
    pattern.append(":*");
    assert(pattern@ =~= location_pattern(location));
    pattern
}

/// The pattern by which the keys of the menus of one message are found.
pub fn scan_pattern(location: u64, menu_id: u64) -> (pattern: String)
    ensures
        pattern@ == message_pattern(location, menu_id),
{
    let mut pattern = String::from_str("reaction_menu:");
    push_decimal(&mut pattern, location);
    pattern.append(":");
    push_decimal(&mut pattern, menu_id);
    pattern.append(":*");
    assert(pattern@ =~= message_pattern(location, menu_id));
    pattern
}

/// The kind of menu that a key of the keyed store names after its last
/// colon.
pub fn kind_of_key(key: &str) -> (kind: Option<MenuKind>)
    ensures
        kind == key_kind(key@),
{
    let n = key.unicode_len();
    let mut start: usize = n;
    proof {
        assert(key@.take(n as int) =~= key@);
        assert(last_segment(key@) =~= last_segment(key@.take(n as int)) + key@.subrange(
            n as int,
            n as int,
        ));
    }
    while start > 0 && key.get_char(start - 1) != ':'
        invariant
            start <= n,
            n == key@.len(),
            last_segment(key@) == last_segment(key@.take(start as int)) + key@.subrange(
                start as int,
                n as int,
            ),
        decreases start,
    {
        proof {
            let shorter = key@.take(start - 1);
            assert(key@.take(start as int).last() == key@[start - 1]);
            assert(key@.take(start as int).drop_last() =~= shorter);
            assert(last_segment(shorter).push(key@[start - 1]) + key@.subrange(
                start as int,
                n as int,
            ) =~= last_segment(shorter) + key@.subrange(start - 1, n as int));
        }
        start -= 1;
    }
    proof {
        if start > 0 {
            assert(key@.take(start as int).last() == key@[start - 1]);
        }
        assert(last_segment(key@.take(start as int)) =~= Seq::<char>::empty());
        assert(last_segment(key@) =~= key@.subrange(start as int, n as int));
    }
    MenuKind::parse(key.substring_char(start, n))
}

} // verus!
