//! The inspector's model: the apps found on the network, the view tree
//! an app sends, and what the view inspector shows of a selected view.

use vstd::prelude::*;

verus! {

/// An app announced on the network: its id and where to reach it.
pub struct AppEntry<A> {
    pub id: String,
    pub addr: A,
}

/// The discovered apps, each id once, in the order they were found.
pub struct AppRegistry<A> {
    pub apps: Vec<AppEntry<A>>,
}

pub open spec fn entries_view<A>(apps: Seq<AppEntry<A>>) -> Seq<(Seq<char>, A)> {
    apps.map_values(|e: AppEntry<A>| (e.id@, e.addr))
}

/// The position of the first app with id `id`, from `i` on.
pub open spec fn index_of<A>(apps: Seq<(Seq<char>, A)>, id: Seq<char>) -> Option<int> {
    if exists|i: int| 0 <= i < apps.len() && apps[i].0 == id {
        Some(choose|i: int| 0 <= i < apps.len() && apps[i].0 == id && forall|j: int| 0 <= j < i ==> apps[j].0 != id)
    } else {
        None
    }
}

/// What a discovery did to the registry.
#[derive(Clone, Copy, Debug, PartialEq, Eq, Structural)]
pub enum Discovery {
    /// A known app moved: its address was updated.
    Updated,
    /// A new app was added; `connect` when there is no client yet, so
    /// the inspector connects to it.
    Added { connect: bool },
}

/// The ids of `apps` with `id` left out, in order.
pub open spec fn without_id<A>(apps: Seq<(Seq<char>, A)>, id: Seq<char>) -> Seq<(Seq<char>, A)> {
    apps.filter(|e: (Seq<char>, A)| e.0 != id)
}

impl<A: Copy> AppRegistry<A> {
    pub open spec fn view(&self) -> Seq<(Seq<char>, A)> {
        entries_view(self.apps@)
    }

    pub fn new() -> (r: Self)
        ensures
            r.view() == Seq::<(Seq<char>, A)>::empty(),
    {
        let r = AppRegistry { apps: Vec::new() };
        assert(r.view() =~= Seq::<(Seq<char>, A)>::empty());
        r
    }

    /// Where the first app with `id` is held.
    fn find(&self, id: &String) -> (r: Option<usize>)
        ensures
            r matches Some(i) ==> i < self.apps.len() && self.view()[i as int].0 == id@ && forall|j: int|
                0 <= j < i ==> self.view()[j].0 != id@,
            r is None ==> forall|j: int| 0 <= j < self.apps.len() ==> self.view()[j].0 != id@,
    {
        let mut i: usize = 0;
        while i < self.apps.len()
            invariant
                i <= self.apps.len(),
                forall|j: int| 0 <= j < i ==> self.view()[j].0 != id@,
            decreases self.apps.len() - i,
        {
            if self.apps[i].id == *id {
                return Some(i);
            }
            i = i + 1;
        }
        None
    }

    /// The address of the app `id`, if it was found.
    pub fn address_of(&self, id: &String) -> (r: Option<A>)
        ensures
            r == (match index_of(self.view(), id@) {
                Some(i) => Some(self.view()[i].1),
                None => None::<A>,
            }),
    {
        match self.find(id) {
            Some(i) => {
                proof {
                    lemma_index_of(self.view(), id@, i as int);
                }
                Some(self.apps[i].addr)
            },
            None => None,
        }
    }

    /// An app was resolved on the network: a known id moves to `addr`,
    /// a new one is added at the end. A new app is connected to when
    /// there is no client yet.
    pub fn app_discovered(&mut self, id: String, addr: A, has_client: bool) -> (d: Discovery)
        ensures
            index_of(old(self).view(), id@) matches Some(i) ==> d == Discovery::Updated && final(self).view() == old(self).view().update(i, (id@, addr)),
            index_of(old(self).view(), id@) is None ==> d == (Discovery::Added {
                connect: !has_client,
            }) && final(self).view() == old(self).view().push((id@, addr)),
    {
        match self.find(&id) {
            Some(i) => {
                proof {
                    lemma_index_of(self.view(), id@, i as int);
                }
                let ghost before = self.apps@;
                let mut entry = self.apps.remove(i);
                entry.addr = addr;
                self.apps.insert(i, entry);
                assert(self.view() =~= entries_view(before).update(i as int, (id@, addr)));
                Discovery::Updated
            },
            None => {
                let ghost before = self.view();
                self.apps.push(AppEntry { id, addr });
                assert(self.view() =~= before.push((id@, addr)));
                Discovery::Added { connect: !has_client }
            },
        }
    }

    /// An app left the network under its full service name: its id is
    /// the name without `.` and the service type, or the whole name when
    /// it does not end so. Every app with that id is dropped.
    pub fn app_removed(&mut self, fullname: &str, service_type: &str)
        ensures
            final(self).view() == without_id(old(self).view(), app_id_of(fullname@, service_type@)),
    {
        let id = app_id(fullname, service_type);
        let ghost v = self.view();
        let mut kept: Vec<AppEntry<A>> = Vec::new();
        let mut rest: Vec<AppEntry<A>> = Vec::new();
        std::mem::swap(&mut rest, &mut self.apps);
        proof {
            reveal_with_fuel(Seq::<_>::filter, 1);
            assert(entries_view(rest@) =~= v);
        }
        let total = rest.len();
        let mut k: usize = 0;
        while rest.len() > 0
            invariant
                k + rest.len() == v.len(),
                v.len() == total,
                entries_view(rest@) == v.skip(k as int),
                entries_view(kept@) == without_id(v.take(k as int), id@),
            decreases rest.len(),
        {
            proof {
                reveal_with_fuel(Seq::<_>::filter, 1);
            }
            let ghost r0 = rest@;
            let e = rest.remove(0);
            assert(entries_view(r0)[0] == (e.id@, e.addr));
            assert(v.skip(k as int)[0] == v[k as int]);
            let ghost tk = v.take(k + 1);
            assert(tk.drop_last() =~= v.take(k as int));
            assert(tk.last() == (e.id@, e.addr));
            assert forall|j: int| 0 <= j < rest@.len() implies #[trigger] entries_view(rest@)[j]
                == v.skip(k + 1)[j] by {
                assert(rest@[j] == r0[j + 1]);
                assert(entries_view(r0)[j + 1] == v.skip(k as int)[j + 1]);
            }
            assert(entries_view(rest@) =~= v.skip(k + 1));
            if !(e.id == id) {
                kept.push(e);
                assert(entries_view(kept@) =~= without_id(tk, id@));
            } else {
                assert(entries_view(kept@) =~= without_id(tk, id@));
            }
            k = k + 1;
        }
        assert(v.take(k as int) =~= v);
        self.apps = kept;
    }

    /// The ids of the apps, for the picker.
    pub fn client_ids(&self) -> (ids: Vec<String>)
        ensures
            strings_view(ids@) == ids_of(self.view()),
    {
        let mut ids: Vec<String> = Vec::new();
        let mut i: usize = 0;
        while i < self.apps.len()
            invariant
                i <= self.apps.len(),
                ids@.len() == i,
                strings_view(ids@) == ids_of(self.view()).take(i as int),
            decreases self.apps.len() - i,
        {
            let id = self.apps[i].id.clone();
            assert(ids_of(self.view())[i as int] == id@);
            let ghost before = ids@;
            let ghost idv = id@;
            ids.push(id);
            assert forall|j: int| 0 <= j < i + 1 implies #[trigger] strings_view(ids@)[j] == ids_of(
                self.view(),
            ).take(i + 1)[j] by {
                if j < i {
                    assert(ids@[j] == before[j]);
                    assert(strings_view(before)[j] == ids_of(self.view()).take(i as int)[j]);
                } else {
                    assert(ids@[j]@ == idv);
                }
            }
            assert(strings_view(ids@) =~= ids_of(self.view()).take(i + 1));
            i = i + 1;
        }
        assert(ids_of(self.view()).take(i as int) =~= ids_of(self.view()));
        ids
    }
}

/// The chars of each string.
pub open spec fn strings_view(v: Seq<String>) -> Seq<Seq<char>> {
    v.map_values(|s: String| s@)
}

/// The ids of the apps, in order.
pub open spec fn ids_of<A>(v: Seq<(Seq<char>, A)>) -> Seq<Seq<char>> {
    v.map_values(|e: (Seq<char>, A)| e.0)
}

proof fn lemma_index_of<A>(apps: Seq<(Seq<char>, A)>, id: Seq<char>, i: int)
    requires
        0 <= i < apps.len(),
        apps[i].0 == id,
        forall|j: int| 0 <= j < i ==> apps[j].0 != id,
    ensures
        index_of(apps, id) == Some(i),
{
    let k = choose|k: int| 0 <= k < apps.len() && apps[k].0 == id && forall|j: int| 0 <= j < k ==> apps[j].0 != id;
    assert(0 <= i < apps.len() && apps[i].0 == id && forall|j: int| 0 <= j < i ==> apps[j].0 != id);
    if k < i {
    } else if k > i {
        assert(apps[i].0 != id);
    }
}

/// Where the first app with `id` is, when there is one.
proof fn lemma_index_of_found<A>(apps: Seq<(Seq<char>, A)>, id: Seq<char>, k: int)
    requires
        0 <= k < apps.len(),
        apps[k].0 == id,
    ensures
        index_of(apps, id) matches Some(i) && 0 <= i <= k && apps[i].0 == id && forall|j: int|
            0 <= j < i ==> apps[j].0 != id,
    decreases k,
{
    if exists|j: int| 0 <= j < k && apps[j].0 == id {
        let j = choose|j: int| 0 <= j < k && apps[j].0 == id;
        lemma_index_of_found(apps, id, j);
    } else {
        lemma_index_of(apps, id, k);
    }
}

/// The registry after `id` was discovered at `addr`: a known id moves, a
/// new one goes at the end.
pub open spec fn discovered<A>(apps: Seq<(Seq<char>, A)>, id: Seq<char>, addr: A) -> Seq<(Seq<char>, A)> {
    match index_of(apps, id) {
        Some(i) => apps.update(i, (id, addr)),
        None => apps.push((id, addr)),
    }
}

/// No id is listed twice.
pub open spec fn unique_ids<A>(apps: Seq<(Seq<char>, A)>) -> bool {
    forall|i: int, j: int| 0 <= i < j < apps.len() ==> apps[i].0 != apps[j].0
}

/// A discovered app is found at the address it was discovered at.
pub proof fn law_found_where_discovered<A>(apps: Seq<(Seq<char>, A)>, id: Seq<char>, addr: A)
    ensures
        index_of(discovered(apps, id, addr), id) matches Some(i) && discovered(apps, id, addr)[i].1
            == addr,
{
    let after = discovered(apps, id, addr);
    match index_of(apps, id) {
        Some(i) => {
            lemma_index_of_some(apps, id);
            lemma_index_of(after, id, i);
        },
        None => {
            assert forall|j: int| 0 <= j < apps.len() implies after[j].0 != id by {
                if apps[j].0 == id {
                    lemma_index_of_found(apps, id, j);
                }
            }
            lemma_index_of(after, id, apps.len() as int);
        },
    }
}

/// What `index_of` finds is the first app with the id.
proof fn lemma_index_of_some<A>(apps: Seq<(Seq<char>, A)>, id: Seq<char>)
    ensures
        index_of(apps, id) matches Some(i) ==> 0 <= i < apps.len() && apps[i].0 == id && forall|j: int|
            0 <= j < i ==> apps[j].0 != id,
{
    if exists|k: int| 0 <= k < apps.len() && apps[k].0 == id {
        let k = choose|k: int| 0 <= k < apps.len() && apps[k].0 == id;
        lemma_index_of_found(apps, id, k);
    }
}

/// Discovering an app keeps every id listed once.
pub proof fn law_discovery_keeps_ids_unique<A>(apps: Seq<(Seq<char>, A)>, id: Seq<char>, addr: A)
    requires
        unique_ids(apps),
    ensures
        unique_ids(discovered(apps, id, addr)),
{
    let after = discovered(apps, id, addr);
    match index_of(apps, id) {
        Some(i) => {
            lemma_index_of_some(apps, id);
            assert forall|a: int, b: int| 0 <= a < b < after.len() implies after[a].0 != after[b].0 by {
                assert(after[a].0 == apps[a].0);
                assert(after[b].0 == apps[b].0);
            }
        },
        None => {
            assert forall|a: int, b: int| 0 <= a < b < after.len() implies after[a].0 != after[b].0 by {
                if b == apps.len() && apps[a].0 == id {
                    lemma_index_of_found(apps, id, a);
                }
            }
        },
    }
}

/// After an app left, no app with its id is found.
pub proof fn law_removed_app_is_gone<A>(apps: Seq<(Seq<char>, A)>, id: Seq<char>)
    ensures
        index_of(without_id(apps, id), id) is None,
{
    let after = without_id(apps, id);
    if exists|k: int| 0 <= k < after.len() && after[k].0 == id {
        let k = choose|k: int| 0 <= k < after.len() && after[k].0 == id;
        apps.lemma_filter_pred(|e: (Seq<char>, A)| e.0 != id, k);
    }
}

/// The index of the first address from `i` on, of the first IPv4 one
/// when `v4_only`.
pub open spec fn first_address<A>(addrs: Seq<(bool, A)>, i: int, v4_only: bool) -> Option<int>
    decreases addrs.len() - i,
{
    if i < 0 || i >= addrs.len() {
        None
    } else if !v4_only || addrs[i].0 {
        Some(i)
    } else {
        first_address(addrs, i + 1, v4_only)
    }
}

/// Where to reach a resolved app: its first IPv4 address, else its first
/// address of any kind.
pub open spec fn reach_at<A>(addrs: Seq<(bool, A)>) -> Option<A> {
    match first_address(addrs, 0, true) {
        Some(i) => Some(addrs[i].1),
        None => if addrs.len() > 0 {
            Some(addrs[0].1)
        } else {
            None
        },
    }
}

/// What a resolved service on the network gives the registry: the app it
/// announces in its `app_id` property and where to reach it. Nothing
/// for a service without the property, for this inspector itself
/// (`own_id`), or for one without an address. Each address is tagged
/// with whether it is IPv4.
pub fn resolved_app<A: Copy>(app_id: Option<&str>, own_id: &str, addrs: &Vec<(bool, A)>) -> (r: Option<(String, A)>)
    ensures
        match app_id {
            None => r is None,
            Some(id) => if id@ == own_id@ {
                r is None
            } else {
                match reach_at(addrs@) {
                    Some(a) => r matches Some((s, b)) && s@ == id@ && b == a,
                    None => r is None,
                }
            },
        },
{
    let id = match app_id {
        Some(id) => id,
        None => return None,
    };
    let id = id.to_owned();
    let own = own_id.to_owned();
    if id == own {
        return None;
    }
    let mut i: usize = 0;
    while i < addrs.len()
        invariant
            i <= addrs.len(),
            app_id matches Some(x) && x@ == id@,
            id@ != own_id@,
            first_address(addrs@, 0, true) == first_address(addrs@, i as int, true),
        decreases addrs.len() - i,
    {
        if addrs[i].0 {
            return Some((id, addrs[i].1));
        }
        i = i + 1;
    }
    if addrs.len() > 0 {
        Some((id, addrs[0].1))
    } else {
        None
    }
}

/// The app id in a full service name: the name without `.` and the
/// service type at its end, or the whole name.
pub open spec fn app_id_of(fullname: Seq<char>, service_type: Seq<char>) -> Seq<char> {
    let suffix = seq!['.'] + service_type;
    if suffix.len() <= fullname.len() && fullname.skip(fullname.len() - suffix.len()) == suffix {
        fullname.take(fullname.len() - suffix.len())
    } else {
        fullname
    }
}

/// The app id in a full service name.
pub fn app_id(fullname: &str, service_type: &str) -> (r: String)
    ensures
        r@ == app_id_of(fullname@, service_type@),
{
    let name = crate::chars::chars_of(fullname);
    let ty = crate::chars::chars_of(service_type);
    let mut suffix: Vec<char> = Vec::new();
    suffix.push('.');
    let mut k: usize = 0;
    while k < ty.len()
        invariant
            k <= ty.len(),
            suffix@ == seq!['.'] + ty@.take(k as int),
        decreases ty.len() - k,
    {
        suffix.push(ty[k]);
        assert(suffix@ =~= seq!['.'] + ty@.take(k + 1));
        k = k + 1;
    }
    assert(ty@.take(k as int) =~= ty@);
    if suffix.len() <= name.len() {
        let from = name.len() - suffix.len();
        let mut same = true;
        let mut j: usize = 0;
        while j < suffix.len()
            invariant
                from + suffix.len() == name.len(),
                j <= suffix.len(),
                same == forall|t: int| 0 <= t < j ==> name@[from + t] == suffix@[t],
            decreases suffix.len() - j,
        {
            if name[from + j] != suffix[j] {
                same = false;
            }
            j = j + 1;
        }
        if same {
            assert(name@.skip(from as int) =~= suffix@);
            let mut id: Vec<char> = Vec::new();
            let mut t: usize = 0;
            while t < from
                invariant
                    t <= from,
                    from <= name.len(),
                    id@ == name@.take(t as int),
                decreases from - t,
            {
                id.push(name[t]);
                assert(id@ =~= name@.take(t + 1));
                t = t + 1;
            }
            return crate::pixels::string_of(&id);
        } else {
            assert(name@.skip(from as int) != suffix@) by {
                let t = choose|t: int| 0 <= t < j && name@[from + t] != suffix@[t];
                assert(name@.skip(from as int)[t] != suffix@[t]);
            }
        }
    }
    crate::pixels::string_of(&name)
}

/// One view of the tree an app sends: its id, its label and its
/// subviews.
pub struct ViewRepr {
    pub id: String,
    pub label: String,
    pub subviews: Vec<ViewRepr>,
}

/// The first view in `v`'s tree, `v` first and then its subviews in
/// order, whose id is `id`.
pub open spec fn find_in(v: ViewRepr, id: Seq<char>) -> Option<ViewRepr>
    decreases v, v.subviews@.len() + 1,
{
    if v.id@ == id {
        Some(v)
    } else {
        find_in_subviews(v, 0, id)
    }
}

/// The first view with id `id` in the trees of `v`'s subviews from
/// the `i`-th on.
pub open spec fn find_in_subviews(v: ViewRepr, i: int, id: Seq<char>) -> Option<ViewRepr>
    decreases v, v.subviews@.len() - i,
{
    if i < 0 || i >= v.subviews@.len() {
        None
    } else {
        match find_in(v.subviews@[i], id) {
            Some(found) => Some(found),
            None => find_in_subviews(v, i + 1, id),
        }
    }
}

/// The first view in `view`'s tree whose id is `id`.
pub fn find_repr<'a>(view: &'a ViewRepr, id: &String) -> (r: Option<&'a ViewRepr>)
    ensures
        r matches Some(found) ==> find_in(*view, id@) == Some(*found),
        r is None ==> find_in(*view, id@) is None,
    decreases view, view.subviews@.len() + 1,
{
    if view.id == *id {
        return Some(view);
    }
    let mut i: usize = 0;
    while i < view.subviews.len()
        invariant
            i <= view.subviews.len(),
            find_in(*view, id@) == find_in_subviews(*view, i as int, id@),
        decreases view.subviews.len() - i,
    {
        match find_repr(&view.subviews[i], id) {
            Some(found) => {
                return Some(found);
            },
            None => {},
        }
        i = i + 1;
    }
    None
}

/// What the view inspector shows of the selected view: its label line,
/// its id in small type, and which view it is.
pub struct ViewInspectorView {
    pub label_text: String,
    pub id_text: String,
    pub id_text_size: u32,
    pub view_id: Option<String>,
}

/// The label line for a view labelled `label`.
pub open spec fn label_line(label: Seq<char>) -> Seq<char> {
    seq!['L', 'a', 'b', 'e', 'l', ':', ' '] + label
}

impl ViewInspectorView {
    pub fn new() -> (v: Self)
        ensures
            v.label_text@ == Seq::<char>::empty(),
            v.id_text@ == Seq::<char>::empty(),
            v.id_text_size == 0,
            v.view_id is None,
    {
        ViewInspectorView {
            label_text: String::new(),
            id_text: String::new(),
            id_text_size: 0,
            view_id: None,
        }
    }

    /// Shows `view`: `Label: ` and its label, and its id at size 10.
    pub fn set_view(&mut self, view: &ViewRepr)
        ensures
            final(self).label_text@ == label_line(view.label@),
            final(self).id_text@ == view.id@,
            final(self).id_text_size == 10,
            final(self).view_id matches Some(i) && i@ == view.id@,
    {
        let mut text = String::new();
        text.append("Label: ");
        proof {
            reveal_strlit("Label: ");
        }
        text.append(view.label.as_str());
        self.label_text = text;
        self.id_text = view.id.clone();
        self.id_text_size = 10;
        self.view_id = Some(view.id.clone());
    }
}

} // verus!
