//! Participants and their holdings.

use vstd::prelude::*;
use vstd::std_specs::cmp::PartialEqSpec;

verus! {

/// What an investor is, as mathematics: two names and a finite map from the
/// identifier of each asset held to the number of shares held.
pub struct InvestorView {
    pub id: Seq<char>,
    pub name: Seq<char>,
    pub holdings: Map<Seq<char>, nat>,
}

/// The number of shares of `asset` in `holdings`; none where there is no entry.
pub open spec fn held(holdings: Map<Seq<char>, nat>, asset: Seq<char>) -> nat {
    if holdings.contains_key(asset) {
        holdings[asset]
    } else {
        0
    }
}

/// `holdings` after `quantity` shares of `asset` were added. An entry is
/// made where there was none.
pub open spec fn credited(holdings: Map<Seq<char>, nat>, asset: Seq<char>, quantity: nat) -> Map<
    Seq<char>,
    nat,
> {
    holdings.insert(asset, held(holdings, asset) + quantity)
}

/// Whether `quantity` shares of `asset` can be taken out of `holdings`.
pub open spec fn can_debit(holdings: Map<Seq<char>, nat>, asset: Seq<char>, quantity: nat) -> bool {
    holdings.contains_key(asset) && holdings[asset] >= quantity
}

/// `holdings` after `quantity` shares of `asset` were taken out.
pub open spec fn debited(holdings: Map<Seq<char>, nat>, asset: Seq<char>, quantity: nat) -> Map<
    Seq<char>,
    nat,
>
    recommends
        can_debit(holdings, asset, quantity),
{
    holdings.insert(asset, (holdings[asset] - quantity) as nat)
}

/// One change asked of an investor's holdings.
pub enum HoldingChange {
    /// So many shares of the asset are added.
    Credit(Seq<char>, nat),
    /// So many shares of the asset are taken out, where they are held.
    Debit(Seq<char>, nat),
}

/// The holdings after one change. A debit of more than is held is refused
/// and changes nothing.
pub open spec fn changed(holdings: Map<Seq<char>, nat>, change: HoldingChange) -> Map<
    Seq<char>,
    nat,
> {
    match change {
        HoldingChange::Credit(asset, quantity) => credited(holdings, asset, quantity),
        HoldingChange::Debit(asset, quantity) => if can_debit(holdings, asset, quantity) {
            debited(holdings, asset, quantity)
        } else {
            holdings
        },
    }
}

/// The holdings after a run of changes, oldest first.
pub open spec fn changed_by_all(holdings: Map<Seq<char>, nat>, changes: Seq<HoldingChange>) -> Map<
    Seq<char>,
    nat,
>
    decreases changes.len(),
{
    if changes.len() == 0 {
        holdings
    } else {
        changed(changed_by_all(holdings, changes.drop_last()), changes.last())
    }
}

/// What a run of changes adds to the holding of one asset: the sum of the
/// credits of that asset, less the sum of its debits that were not refused.
pub open spec fn net_change(
    holdings: Map<Seq<char>, nat>,
    changes: Seq<HoldingChange>,
    asset: Seq<char>,
) -> int
    decreases changes.len(),
{
    if changes.len() == 0 {
        0
    } else {
        let before = changed_by_all(holdings, changes.drop_last());
        net_change(holdings, changes.drop_last(), asset) + match changes.last() {
            HoldingChange::Credit(credited_asset, quantity) => if credited_asset == asset {
                quantity as int
            } else {
                0
            },
            HoldingChange::Debit(debited_asset, quantity) => if debited_asset == asset
                && can_debit(before, debited_asset, quantity) {
                -(quantity as int)
            } else {
                0
            },
        }
    }
}

/// Shares are conserved: over any run of credits and debits, the holding of
/// an asset changes by the sum of its credits less the sum of its debits that
/// were not refused.
pub proof fn lemma_holdings_conserved(
    holdings: Map<Seq<char>, nat>,
    changes: Seq<HoldingChange>,
    asset: Seq<char>,
)
    ensures
        held(changed_by_all(holdings, changes), asset) - held(holdings, asset) == net_change(
            holdings,
            changes,
            asset,
        ),
    decreases changes.len(),
{
    if changes.len() > 0 {
        lemma_holdings_conserved(holdings, changes.drop_last(), asset);
    }
}

/// The map that a list of entries stands for. Where an asset occurs more than
/// once, its last entry counts.
pub open spec fn holdings_of(entries: Seq<(String, u32)>) -> Map<Seq<char>, nat>
    decreases entries.len(),
{
    if entries.len() == 0 {
        Map::empty()
    } else {
        holdings_of(entries.drop_last()).insert(entries.last().0@, entries.last().1 as nat)
    }
}

/// No asset has two entries.
pub open spec fn distinct_assets(entries: Seq<(String, u32)>) -> bool {
    forall|i: int, j: int| 0 <= i < j < entries.len() ==> entries[i].0@ != entries[j].0@
}

/// An asset is in the map exactly when it has an entry.
pub proof fn lemma_holdings_domain(entries: Seq<(String, u32)>, asset: Seq<char>)
    ensures
        holdings_of(entries).contains_key(asset) <==> exists|i: int|
            0 <= i < entries.len() && entries[i].0@ == asset,
    decreases entries.len(),
{
    if entries.len() > 0 {
        let front = entries.drop_last();
        lemma_holdings_domain(front, asset);
        if holdings_of(entries).contains_key(asset) {
            if entries.last().0@ == asset {
                assert(entries[entries.len() - 1].0@ == asset);
            } else {
                let i = choose|i: int| 0 <= i < front.len() && front[i].0@ == asset;
                assert(entries[i].0@ == asset);
            }
        }
        if exists|i: int| 0 <= i < entries.len() && entries[i].0@ == asset {
            let i = choose|i: int| 0 <= i < entries.len() && entries[i].0@ == asset;
            if i < entries.len() - 1 {
                assert(front[i].0@ == asset);
            }
        }
    }
}

/// Where no asset has two entries, the map holds each entry's quantity.
pub proof fn lemma_holdings_at(entries: Seq<(String, u32)>, i: int)
    requires
        distinct_assets(entries),
        0 <= i < entries.len(),
    ensures
        holdings_of(entries).contains_key(entries[i].0@),
        holdings_of(entries)[entries[i].0@] == entries[i].1 as nat,
    decreases entries.len(),
{
    if i < entries.len() - 1 {
        let front = entries.drop_last();
        assert(front[i] == entries[i]);
        lemma_holdings_at(front, i);
    }
}

/// Where no asset has two entries, a new quantity in one entry is a new
/// quantity for that asset in the map.
pub proof fn lemma_holdings_update(entries: Seq<(String, u32)>, i: int, quantity: u32)
    requires
        distinct_assets(entries),
        0 <= i < entries.len(),
    ensures
        distinct_assets(entries.update(i, (entries[i].0, quantity))),
        holdings_of(entries.update(i, (entries[i].0, quantity))) == holdings_of(entries).insert(
            entries[i].0@,
            quantity as nat,
        ),
    decreases entries.len(),
{
    let changed = entries.update(i, (entries[i].0, quantity));
    assert(distinct_assets(changed)) by {
        assert forall|a: int, b: int| 0 <= a < b < changed.len() implies changed[a].0@
            != changed[b].0@ by {
            assert(changed[a].0@ == entries[a].0@);
            assert(changed[b].0@ == entries[b].0@);
        }
    }
    let front = entries.drop_last();
    if i == entries.len() - 1 {
        assert(changed.drop_last() =~= front);
        assert(holdings_of(changed) =~= holdings_of(entries).insert(
            entries[i].0@,
            quantity as nat,
        ));
    } else {
        assert(front[i] == entries[i]);
        lemma_holdings_update(front, i, quantity);
        assert(changed.drop_last() =~= front.update(i, (entries[i].0, quantity)));
        assert(changed.last() == entries.last());
        assert(entries.last().0@ != entries[i].0@);
        assert(holdings_of(changed) =~= holdings_of(entries).insert(
            entries[i].0@,
            quantity as nat,
        ));
    }
}

/// Whether the asset of `entry` has an entry with the same quantity among
/// `entries`.
pub open spec fn holds_entry(entries: Seq<(String, u32)>, entry: (String, u32)) -> bool {
    exists|j: int|
        0 <= j < entries.len() && (#[trigger] entries[j]).0@ == entry.0@ && entries[j].1
            == entry.1
}

/// Every entry of `a` is an entry of `b`: the same asset with the same
/// quantity.
pub open spec fn entries_within(a: Seq<(String, u32)>, b: Seq<(String, u32)>) -> bool {
    forall|i: int| 0 <= i < a.len() ==> holds_entry(b, #[trigger] a[i])
}

/// Where no asset has two entries and every entry of `a` is one of `b`, the
/// map of `b` holds what the map of `a` holds.
proof fn lemma_within_holdings(a: Seq<(String, u32)>, b: Seq<(String, u32)>, asset: Seq<char>)
    requires
        distinct_assets(a),
        distinct_assets(b),
        entries_within(a, b),
        holdings_of(a).contains_key(asset),
    ensures
        holdings_of(b).contains_key(asset),
        holdings_of(b)[asset] == holdings_of(a)[asset],
{
    lemma_holdings_domain(a, asset);
    let i = choose|i: int| 0 <= i < a.len() && a[i].0@ == asset;
    assert(holds_entry(b, a[i]));
    let j = choose|j: int|
        0 <= j < b.len() && (#[trigger] b[j]).0@ == a[i].0@ && b[j].1 == a[i].1;
    lemma_holdings_at(a, i);
    lemma_holdings_at(b, j);
}

/// Where no asset has two entries and two lists stand for the same map,
/// every entry of the one is an entry of the other.
proof fn lemma_entries_within(a: Seq<(String, u32)>, b: Seq<(String, u32)>)
    requires
        distinct_assets(a),
        distinct_assets(b),
        holdings_of(a) == holdings_of(b),
    ensures
        entries_within(a, b),
{
    assert forall|i: int| 0 <= i < a.len() implies holds_entry(b, #[trigger] a[i]) by {
        lemma_holdings_at(a, i);
        lemma_holdings_domain(b, a[i].0@);
        let j = choose|j: int| 0 <= j < b.len() && b[j].0@ == a[i].0@;
        lemma_holdings_at(b, j);
        assert(b[j].0@ == a[i].0@ && b[j].1 == a[i].1);
    }
}

/// Where no asset has two entries, lists with the same entries, in whatever
/// order, stand for the same map.
pub proof fn lemma_same_entries_same_holdings(a: Seq<(String, u32)>, b: Seq<(String, u32)>)
    requires
        distinct_assets(a),
        distinct_assets(b),
    ensures
        entries_within(a, b) && entries_within(b, a) <==> holdings_of(a) == holdings_of(b),
{
    if entries_within(a, b) && entries_within(b, a) {
        assert forall|asset: Seq<char>| #[trigger]
            holdings_of(a).contains_key(asset) == holdings_of(b).contains_key(asset) && (
            holdings_of(a).contains_key(asset) ==> holdings_of(a)[asset] == holdings_of(
                b,
            )[asset]) by {
            if holdings_of(a).contains_key(asset) {
                lemma_within_holdings(a, b, asset);
            }
            if holdings_of(b).contains_key(asset) {
                lemma_within_holdings(b, a, asset);
            }
        }
        assert(holdings_of(a) =~= holdings_of(b));
    }
    if holdings_of(a) == holdings_of(b) {
        lemma_entries_within(a, b);
        lemma_entries_within(b, a);
    }
}

/// A participant: an identifier, a display name, and the shares held of each
/// asset.
#[derive(Debug, Eq)]
pub struct Investor {
    id: String,
    name: String,
    assets: Vec<(String, u32)>,
}

impl View for Investor {
    type V = InvestorView;

    closed spec fn view(&self) -> InvestorView {
        InvestorView { id: self.id@, name: self.name@, holdings: holdings_of(self.assets@) }
    }
}

impl PartialEq for Investor {
    /// Investors are equal when their names and their holdings are, in
    /// whatever order the holdings are kept.
    fn eq(&self, other: &Investor) -> (equal: bool) {
        self.id == other.id && self.name == other.name && Investor::within(
            &self.assets,
            &other.assets,
        ) && Investor::within(&other.assets, &self.assets)
    }
}

impl vstd::std_specs::cmp::PartialEqSpecImpl for Investor {
    open spec fn obeys_eq_spec() -> bool {
        true
    }

    open spec fn eq_spec(&self, other: &Investor) -> bool {
        &&& self.id_text() == other.id_text()
        &&& self.name_text() == other.name_text()
        &&& entries_within(self.entries(), other.entries())
        &&& entries_within(other.entries(), self.entries())
    }
}

impl Clone for Investor {
    fn clone(&self) -> (copy: Investor)
        ensures
            copy@ == self@,
            copy.entries() == self.entries(),
            self.wf() ==> copy.wf(),
    {
        let mut assets: Vec<(String, u32)> = Vec::new();
        let mut i: usize = 0;
        while i < self.assets.len()
            invariant
                i <= self.assets.len(),
                assets@ == self.assets@.take(i as int),
            decreases self.assets.len() - i,
        {
            let entry = (self.assets[i].0.clone(), self.assets[i].1);
            assert(entry == self.assets@[i as int]);
            assets.push(entry);
            assert(assets@ =~= self.assets@.take(i + 1));
            i += 1;
        }
        assert(assets@ =~= self.assets@);
        Investor { id: self.id.clone(), name: self.name.clone(), assets }
    }
}

impl Investor {
    /// The entries that stand for the holdings, in the order in which the
    /// assets were first held.
    pub closed spec fn entries(&self) -> Seq<(String, u32)> {
        self.assets@
    }

    /// No asset has two entries.
    pub closed spec fn wf(&self) -> bool {
        distinct_assets(self.assets@)
    }

    /// The identifier, as text.
    pub closed spec fn id_text(&self) -> Seq<char> {
        self.id@
    }

    /// The display name, as text.
    pub closed spec fn name_text(&self) -> Seq<char> {
        self.name@
    }

    /// The view is made of the two names and of the map that the entries
    /// stand for.
    pub proof fn lemma_view(&self)
        ensures
            self@ == (InvestorView {
                id: self.id_text(),
                name: self.name_text(),
                holdings: holdings_of(self.entries()),
            }),
            self.wf() <==> distinct_assets(self.entries()),
    {
    }

    /// Valid investors are equal exactly when they are the same investor, as
    /// mathematics.
    pub proof fn lemma_eq_is_view_eq(&self, other: &Investor)
        requires
            self.wf(),
            other.wf(),
        ensures
            self.eq_spec(other) <==> self@ == other@,
    {
        lemma_same_entries_same_holdings(self.assets@, other.assets@);
    }

    /// Whether every entry of `a` is an entry of `b`.
    fn within(a: &Vec<(String, u32)>, b: &Vec<(String, u32)>) -> (r: bool)
        ensures
            r == entries_within(a@, b@),
    {
        let mut i: usize = 0;
        while i < a.len()
            invariant
                i <= a.len(),
                forall|k: int| 0 <= k < i ==> holds_entry(b@, #[trigger] a@[k]),
            decreases a.len() - i,
        {
            if !Investor::holds(b, &a[i]) {
                return false;
            }
            i += 1;
        }
        true
    }

    /// Whether the asset of `entry` has an entry with the same quantity
    /// among `entries`.
    fn holds(entries: &Vec<(String, u32)>, entry: &(String, u32)) -> (r: bool)
        ensures
            r == holds_entry(entries@, *entry),
    {
        let mut j: usize = 0;
        while j < entries.len()
            invariant
                j <= entries.len(),
                forall|m: int|
                    0 <= m < j ==> !((#[trigger] entries@[m]).0@ == entry.0@ && entries@[m].1
                        == entry.1),
            decreases entries.len() - j,
        {
            if entries[j].0 == entry.0 && entries[j].1 == entry.1 {
                return true;
            }
            j += 1;
        }
        false
    }

    /// Where the asset has its entry.
    fn position(&self, asset_id: &String) -> (found: Option<usize>)
        ensures
            match found {
                Some(i) => i < self.assets@.len() && self.assets@[i as int].0@ == asset_id@,
                None => forall|i: int|
                    0 <= i < self.assets@.len() ==> self.assets@[i].0@ != asset_id@,
            },
    {
        let mut i: usize = 0;
        while i < self.assets.len()
            invariant
                i <= self.assets.len(),
                forall|k: int| 0 <= k < i ==> self.assets@[k].0@ != asset_id@,
            decreases self.assets.len() - i,
        {
            if self.assets[i].0 == *asset_id {
                return Some(i);
            }
            i += 1;
        }
        None
    }

    /// Sets the quantity held of an asset, with a new entry where there was
    /// none.
    fn put(&mut self, asset_id: String, quantity: u32)
        requires
            old(self).wf(),
        ensures
            final(self).wf(),
            final(self)@ == (InvestorView {
                holdings: old(self)@.holdings.insert(asset_id@, quantity as nat),
                ..old(self)@
            }),
    {
        match self.position(&asset_id) {
            Some(i) => {
                proof {
                    lemma_holdings_update(self.assets@, i as int, quantity);
                }
                self.assets[i].1 = quantity;
                assert(self.assets@ =~= old(self).assets@.update(
                    i as int,
                    (old(self).assets@[i as int].0, quantity),
                ));
            },
            None => {
                self.assets.push((asset_id, quantity));
                assert(self.assets@.drop_last() =~= old(self).assets@);
            },
        }
    }

    /// An investor with the given holdings. Where `assets` names an asset more
    /// than once, the last quantity given for it counts.
    pub fn new(id: String, name: String, assets: Vec<(String, u32)>) -> (investor: Investor)
        ensures
            investor.wf(),
            investor@ == (InvestorView { id: id@, name: name@, holdings: holdings_of(assets@) }),
    {
        let mut investor = Investor { id, name, assets: Vec::new() };
        let mut i: usize = 0;
        while i < assets.len()
            invariant
                i <= assets.len(),
                investor.wf(),
                investor@ == (InvestorView {
                    id: id@,
                    name: name@,
                    holdings: holdings_of(assets@.take(i as int)),
                }),
            decreases assets.len() - i,
        {
            investor.put(assets[i].0.clone(), assets[i].1);
            assert(assets@.take(i + 1).drop_last() =~= assets@.take(i as int));
            i += 1;
        }
        assert(assets@.take(i as int) =~= assets@);
        investor
    }

    /// The identifier.
    pub fn id(&self) -> (id: &str)
        ensures
            id@ == self@.id,
    {
        self.id.as_str()
    }

    /// The display name.
    pub fn name(&self) -> (name: &str)
        ensures
            name@ == self@.name,
    {
        self.name.as_str()
    }

    /// Adds `quantity` shares of an asset to the holdings. An entry is made
    /// where the asset was not held.
    pub fn increment_asset(&mut self, asset_id: String, quantity: u32)
        requires
            old(self).wf(),
            held(old(self)@.holdings, asset_id@) + quantity <= u32::MAX,
        ensures
            final(self).wf(),
            final(self)@ == (InvestorView {
                holdings: credited(old(self)@.holdings, asset_id@, quantity as nat),
                ..old(self)@
            }),
    {
        match self.position(&asset_id) {
            Some(i) => {
                proof {
                    lemma_holdings_at(self.assets@, i as int);
                }
                let sum = self.assets[i].1 + quantity;
                self.put(asset_id, sum);
            },
            None => {
                proof {
                    lemma_holdings_domain(self.assets@, asset_id@);
                }
                self.put(asset_id, quantity);
            },
        }
    }

    /// Takes `quantity` shares of an asset out of the holdings, or fails and
    /// leaves them as they were: the asset has no entry, or its entry holds
    /// fewer shares than asked for.
    pub fn decrement_asset(&mut self, asset_id: String, quantity: u32) -> (r: Result<(), String>)
        requires
            old(self).wf(),
        ensures
            final(self).wf(),
            can_debit(old(self)@.holdings, asset_id@, quantity as nat) ==> r is Ok && final(self)@
                == (InvestorView {
                holdings: debited(old(self)@.holdings, asset_id@, quantity as nat),
                ..old(self)@
            }),
            !old(self)@.holdings.contains_key(asset_id@) ==> *final(self) == *old(self) && (
            r matches Err(text) && text@ == "Asset not found"@),
            old(self)@.holdings.contains_key(asset_id@) && old(self)@.holdings[asset_id@]
                < quantity ==> *final(self) == *old(self) && (r matches Err(text) && text@
                == "Out range quantity"@),
    {
        proof {
            lemma_holdings_domain(self.assets@, asset_id@);
        }
        let Some(i) = self.position(&asset_id) else {
            return Err("Asset not found".to_owned());
        };
        proof {
            lemma_holdings_at(self.assets@, i as int);
        }
        let current = self.assets[i].1;
        if current < quantity {
            return Err("Out range quantity".to_owned());
        }
        self.put(asset_id, current - quantity);
        Ok(())
    }

    /// The number of shares held of an asset, if it has an entry.
    pub fn quantity_of(&self, asset_id: &str) -> (quantity: Option<u32>)
        requires
            self.wf(),
        ensures
            quantity is Some <==> self@.holdings.contains_key(asset_id@),
            quantity matches Some(q) ==> self@.holdings[asset_id@] == q as nat,
    {
        proof {
            lemma_holdings_domain(self.assets@, asset_id@);
        }
        match self.position(&asset_id.to_owned()) {
            Some(i) => {
                proof {
                    lemma_holdings_at(self.assets@, i as int);
                }
                Some(self.assets[i].1)
            },
            None => None,
        }
    }

    /// The entries that stand for the holdings: each asset held, once, with
    /// its quantity.
    pub fn assets(&self) -> (entries: &Vec<(String, u32)>)
        ensures
            entries@ == self.entries(),
    {
        &self.assets
    }
}

} // verus!
