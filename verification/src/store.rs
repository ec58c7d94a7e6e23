//! The state store: the devices of a server and their properties, as
//! the commands received so far leave them.

use crate::table::{
    lemma_position, lemma_table_push, lemma_table_remove, lemma_table_update, position, table, Key,
};
use crate::types::{
    elements_view, text_view, Command, CommandView, DelProperty, Element, ElementView, Kind,
    Parameter, ParameterView, Value,
};
use vstd::prelude::*;

verus! {

/// The properties of one device, by name.
pub type Properties = Map<Key, ParameterView>;

/// The devices of a server, by name.
pub type Devices = Map<Key, Properties>;

/// Why a command could not be applied to the store.
#[derive(Debug, PartialEq)]
pub enum UpdateError {
    /// The device to delete is not in the store.
    UndefinedDevice(String),
    /// The property was never defined for the device, or was defined
    /// as a property of another kind.
    UndefinedProperty(String),
    /// The property was defined without the element.
    UndefinedElement(String),
}

pub enum UpdateFault {
    UndefinedDevice(Key),
    UndefinedProperty(Key),
    UndefinedElement(Key),
}

impl View for UpdateError {
    type V = UpdateFault;

    open spec fn view(&self) -> UpdateFault {
        match self {
            UpdateError::UndefinedDevice(s) => UpdateFault::UndefinedDevice(s@),
            UpdateError::UndefinedProperty(s) => UpdateFault::UndefinedProperty(s@),
            UpdateError::UndefinedElement(s) => UpdateFault::UndefinedElement(s@),
        }
    }
}

/// The position of the first element with the given name.
#[verifier::opaque]
pub open spec fn find_element(es: Seq<ElementView>, name: Key) -> Option<int> {
    if exists|i: int| 0 <= i < es.len() && es[i].name == name {
        Some(
            choose|i: int|
                0 <= i < es.len() && es[i].name == name && forall|j: int|
                    0 <= j < i ==> es[j].name != name,
        )
    } else {
        None
    }
}

/// The first element of a name is found at its position.
pub proof fn lemma_find_element(es: Seq<ElementView>, name: Key, i: int)
    requires
        0 <= i < es.len(),
        es[i].name == name,
        forall|j: int| 0 <= j < i ==> es[j].name != name,
    ensures
        find_element(es, name) == Some(i),
{
    reveal(find_element);
    let k = choose|k: int|
        0 <= k < es.len() && es[k].name == name && forall|j: int| 0 <= j < k ==> es[j].name != name;
    assert(k == i) by {
        if k < i {
            assert(es[k].name != name);
        } else if i < k {
            assert(es[i].name != name);
        }
    }
}

/// No element is found where none has the name.
pub proof fn lemma_find_no_element(es: Seq<ElementView>, name: Key)
    requires
        forall|j: int| 0 <= j < es.len() ==> es[j].name != name,
    ensures
        find_element(es, name) is None,
{
    reveal(find_element);
}

/// Where no element is found, none has the name.
pub proof fn lemma_no_element(es: Seq<ElementView>, name: Key)
    requires
        find_element(es, name) is None,
    ensures
        forall|j: int| 0 <= j < es.len() ==> es[j].name != name,
{
    reveal(find_element);
}

/// A stored element with the value that an update brings. Of a blob,
/// size and format come with the value.
pub open spec fn revalued(stored: ElementView, incoming: ElementView) -> ElementView {
    ElementView {
        value: incoming.value,
        size: if incoming.size is Some {
            incoming.size
        } else {
            stored.size
        },
        format: if incoming.format is Some {
            incoming.format
        } else {
            stored.format
        },
        ..stored
    }
}

/// The stored elements after the incoming ones, taken in order, have
/// each replaced the value of the stored element of its name. An
/// incoming element without a stored one fails the whole update.
pub open spec fn with_values(stored: Seq<ElementView>, incoming: Seq<ElementView>) -> Result<
    Seq<ElementView>,
    UpdateFault,
>
    decreases incoming.len(),
{
    if incoming.len() == 0 {
        Ok(stored)
    } else {
        match find_element(stored, incoming[0].name) {
            None => Err(UpdateFault::UndefinedElement(incoming[0].name)),
            Some(i) => with_values(
                stored.update(i, revalued(stored[i], incoming[0])),
                incoming.skip(1),
            ),
        }
    }
}

pub open spec fn or_else<T>(new: Option<T>, old: Option<T>) -> Option<T> {
    if new is Some {
        new
    } else {
        old
    }
}

/// A stored property after an update: the header fields that the
/// update holds replace the stored ones, and so do the values of the
/// elements that it names. All else stays.
pub open spec fn merged(stored: ParameterView, incoming: ParameterView) -> Result<
    ParameterView,
    UpdateFault,
> {
    match with_values(stored.elements, incoming.elements) {
        Err(f) => Err(f),
        Ok(es) => Ok(
            ParameterView {
                state: or_else(incoming.state, stored.state),
                timeout: or_else(incoming.timeout, stored.timeout),
                timestamp: or_else(incoming.timestamp, stored.timestamp),
                elements: es,
                ..stored
            },
        ),
    }
}

/// No two elements have one name.
pub open spec fn distinct_names(es: Seq<ElementView>) -> bool {
    forall|i: int, j: int| 0 <= i < j < es.len() ==> es[i].name != es[j].name
}

/// The elements with one more: it takes the place of the element of
/// its name, or the last place where there is none.
pub open spec fn placed(done: Seq<ElementView>, e: ElementView) -> Seq<ElementView> {
    match find_element(done, e.name) {
        Some(i) => done.update(i, e),
        None => done.push(e),
    }
}

pub open spec fn placed_all(done: Seq<ElementView>, rest: Seq<ElementView>) -> Seq<ElementView>
    decreases rest.len(),
{
    if rest.len() == 0 {
        done
    } else {
        placed_all(placed(done, rest[0]), rest.skip(1))
    }
}

/// The elements of a definition as the store holds them, one for each
/// name: where the definition has several elements of one name, the
/// last of them stands at the place of the first.
pub open spec fn by_name(es: Seq<ElementView>) -> Seq<ElementView> {
    placed_all(Seq::empty(), es)
}

/// A defined property as the store holds it.
pub open spec fn stored_form(p: ParameterView) -> ParameterView {
    ParameterView { elements: by_name(p.elements), ..p }
}

/// The store after a definition: the property stands under its device,
/// in place of any property of that name, with one element for each
/// name.
pub open spec fn defined(state: Devices, p: ParameterView) -> Devices {
    let properties = if state.contains_key(p.device) {
        state[p.device]
    } else {
        Map::empty()
    };
    state.insert(p.device, properties.insert(p.name, stored_form(p)))
}

/// The store after an update, by the server or asked for by a client.
pub open spec fn updated(state: Devices, p: ParameterView) -> Result<Devices, UpdateFault> {
    if !state.contains_key(p.device) || !state[p.device].contains_key(p.name)
        || state[p.device][p.name].kind != p.kind {
        Err(UpdateFault::UndefinedProperty(p.name))
    } else {
        match merged(state[p.device][p.name], p) {
            Err(f) => Err(f),
            Ok(q) => Ok(state.insert(p.device, state[p.device].insert(p.name, q))),
        }
    }
}

/// The store after a deletion: of one property, or of a device with
/// all its properties.
pub open spec fn deleted(state: Devices, device: Key, name: Option<Key>) -> Result<
    Devices,
    UpdateFault,
> {
    match name {
        Some(n) => if state.contains_key(device) && state[device].contains_key(n) {
            Ok(state.insert(device, state[device].remove(n)))
        } else {
            Err(UpdateFault::UndefinedProperty(n))
        },
        None => if state.contains_key(device) {
            Ok(state.remove(device))
        } else {
            Err(UpdateFault::UndefinedDevice(device))
        },
    }
}

/// The store after a command. A message and a query leave it as it is.
pub open spec fn apply(state: Devices, c: CommandView) -> Result<Devices, UpdateFault> {
    match c {
        CommandView::DefParameter(p) => Ok(defined(state, p)),
        CommandView::SetParameter(p) => updated(state, p),
        CommandView::NewParameter(p) => updated(state, p),
        CommandView::DelProperty(d) => deleted(state, d.device, d.name),
        CommandView::Message(_) => Ok(state),
        CommandView::GetProperties(_) => Ok(state),
    }
}

/// What the store holds of a definition has one element for each name.
pub proof fn lemma_placed_all_distinct(done: Seq<ElementView>, rest: Seq<ElementView>)
    requires
        distinct_names(done),
    ensures
        distinct_names(placed_all(done, rest)),
    decreases rest.len(),
{
    if rest.len() > 0 {
        let e = rest[0];
        let next = placed(done, e);
        match find_element(done, e.name) {
            Some(i) => {
                lemma_found_element(done, e.name);
                assert forall|a: int, b: int| 0 <= a < b < next.len() implies next[a].name
                    != next[b].name by {
                    assert(next[a].name == done[a].name);
                    assert(next[b].name == done[b].name);
                }
            },
            None => {
                lemma_no_element(done, e.name);
                assert forall|a: int, b: int| 0 <= a < b < next.len() implies next[a].name
                    != next[b].name by {
                    if b < done.len() {
                    } else {
                        assert(next[b].name == e.name);
                        assert(next[a] == done[a]);
                    }
                }
            },
        }
        lemma_placed_all_distinct(next, rest.skip(1));
    }
}

/// An update changes no name: the elements stand as they stood, each
/// under its name.
pub proof fn lemma_with_values_keeps_names(stored: Seq<ElementView>, incoming: Seq<ElementView>)
    requires
        with_values(stored, incoming) is Ok,
    ensures
        with_values(stored, incoming)->Ok_0.len() == stored.len(),
        forall|k: int|
            0 <= k < stored.len() ==> (#[trigger] with_values(stored, incoming)->Ok_0[k]).name
                == stored[k].name,
    decreases incoming.len(),
{
    if incoming.len() > 0 {
        let i = find_element(stored, incoming[0].name)->Some_0;
        lemma_found_element(stored, incoming[0].name);
        let next = stored.update(i, revalued(stored[i], incoming[0]));
        lemma_with_values_keeps_names(next, incoming.skip(1));
        assert forall|k: int| 0 <= k < stored.len() implies (#[trigger] with_values(
            stored,
            incoming,
        )->Ok_0[k]).name == stored[k].name by {
            assert(next[k].name == stored[k].name);
        }
    }
}

pub open spec fn parameter_keys(ps: Seq<Parameter>) -> Seq<Key> {
    ps.map_values(|p: Parameter| p.name@)
}

pub open spec fn parameter_views(ps: Seq<Parameter>) -> Seq<ParameterView> {
    ps.map_values(|p: Parameter| p@)
}

/// A device and its properties.
#[derive(Debug, PartialEq)]
pub struct Device {
    pub name: String,
    pub parameters: Vec<Parameter>,
}

impl View for Device {
    type V = Properties;

    open spec fn view(&self) -> Properties {
        table(parameter_keys(self.parameters@), parameter_views(self.parameters@))
    }
}

impl Device {
    /// No two properties of the device have one name, nor two elements
    /// of a property.
    pub open spec fn well_formed(&self) -> bool {
        &&& parameter_keys(self.parameters@).no_duplicates()
        &&& forall|i: int|
            0 <= i < self.parameters@.len() ==> distinct_names(
                (#[trigger] self.parameters@[i])@.elements,
            )
    }
}

pub open spec fn device_keys(ds: Seq<Device>) -> Seq<Key> {
    ds.map_values(|d: Device| d.name@)
}

pub open spec fn device_views(ds: Seq<Device>) -> Seq<Properties> {
    ds.map_values(|d: Device| d@)
}

fn copy_text(s: &String) -> (r: String)
    ensures
        r@ == s@,
{
    s.clone()
}

fn copy_optional(o: &Option<String>) -> (r: Option<String>)
    ensures
        text_view(r) == text_view(*o),
{
    match o {
        Some(s) => Some(copy_text(s)),
        None => None,
    }
}

fn copy_bytes(b: &Vec<u8>) -> (r: Vec<u8>)
    ensures
        r@ == b@,
{
    let mut r: Vec<u8> = Vec::new();
    let mut i: usize = 0;
    while i < b.len()
        invariant
            i <= b@.len(),
            r@ == b@.take(i as int),
        decreases b@.len() - i,
    {
        r.push(b[i]);
        assert(r@ =~= b@.take(i + 1));
        i += 1;
    }
    assert(b@.take(b@.len() as int) =~= b@);
    r
}

impl Value {
    /// A copy of the value.
    pub fn copy(&self) -> (r: Value)
        ensures
            r@ == self@,
    {
        match self {
            Value::Number(s) => Value::Number(copy_text(s)),
            Value::Text(s) => Value::Text(copy_text(s)),
            Value::Switch(s) => Value::Switch(*s),
            Value::Light(s) => Value::Light(*s),
            Value::Blob(b) => Value::Blob(copy_bytes(b)),
            Value::Absent => Value::Absent,
        }
    }
}

impl Element {
    /// A copy of the element.
    pub fn copy(&self) -> (r: Element)
        ensures
            r@ == self@,
    {
        Element {
            name: copy_text(&self.name),
            label: copy_optional(&self.label),
            format: copy_optional(&self.format),
            min: self.min,
            max: self.max,
            step: self.step,
            size: self.size,
            value: self.value.copy(),
        }
    }
}

fn copy_elements(es: &Vec<Element>) -> (r: Vec<Element>)
    ensures
        elements_view(r@) == elements_view(es@),
{
    let mut r: Vec<Element> = Vec::new();
    let mut i: usize = 0;
    while i < es.len()
        invariant
            i <= es@.len(),
            elements_view(r@) == elements_view(es@).take(i as int),
        decreases es@.len() - i,
    {
        let ghost before = elements_view(r@);
        let c = es[i].copy();
        r.push(c);
        assert(elements_view(r@) =~= before.push(c@));
        assert(elements_view(es@)[i as int] == c@);
        assert(elements_view(r@) =~= elements_view(es@).take(i + 1));
        i += 1;
    }
    assert(elements_view(es@).take(es@.len() as int) =~= elements_view(es@));
    r
}

fn find_by_name(es: &Vec<Element>, name: &String) -> (r: Option<usize>)
    ensures
        match r {
            Some(i) => i < es@.len() && find_element(elements_view(es@), name@) == Some(i as int),
            None => find_element(elements_view(es@), name@) is None,
        },
{
    let ghost view = elements_view(es@);
    let mut i: usize = 0;
    while i < es.len()
        invariant
            i <= es@.len(),
            view == elements_view(es@),
            forall|j: int| 0 <= j < i ==> view[j].name != name@,
        decreases es@.len() - i,
    {
        if es[i].name == *name {
            proof {
                lemma_find_element(view, name@, i as int);
            }
            return Some(i);
        }
        i += 1;
    }
    proof {
        lemma_find_no_element(view, name@);
    }
    None
}

/// The stored elements with the values of the incoming ones.
fn merge_elements(stored: &Vec<Element>, incoming: Vec<Element>) -> (r: Result<
    Vec<Element>,
    UpdateError,
>)
    ensures
        match with_values(elements_view(stored@), elements_view(incoming@)) {
            Ok(v) => r matches Ok(x) && elements_view(x@) == v,
            Err(f) => r matches Err(e) && e@ == f,
        },
{
    let ghost goal = with_values(elements_view(stored@), elements_view(incoming@));
    let mut rest = incoming;
    let mut work = copy_elements(stored);
    while rest.len() > 0
        invariant
            goal == with_values(elements_view(stored@), elements_view(incoming@)),
            goal == with_values(elements_view(work@), elements_view(rest@)),
        decreases rest@.len(),
    {
        let ghost inc_before = elements_view(rest@);
        let ghost work_before = elements_view(work@);
        let item = rest.remove(0);
        let ghost incoming_item = item@;
        assert(elements_view(rest@) =~= inc_before.skip(1));
        assert(inc_before[0] == incoming_item);
        assert(inc_before.len() > 0);
        match find_by_name(&work, &item.name) {
            None => {
                return Err(UpdateError::UndefinedElement(item.name));
            },
            Some(i) => {
                assert(find_element(work_before, incoming_item.name) == Some(i as int));
                let mut e = work.remove(i);
                let ghost e_before = e@;
                assert(e_before == work_before[i as int]);
                e.value = item.value;
                if item.size.is_some() {
                    e.size = item.size;
                }
                if item.format.is_some() {
                    e.format = item.format;
                }
                assert(e@ == revalued(e_before, incoming_item));
                work.insert(i, e);
                assert(elements_view(work@) =~= work_before.update(
                    i as int,
                    revalued(work_before[i as int], incoming_item),
                ));
                assert(goal == with_values(elements_view(work@), elements_view(rest@)));
            },
        }
    }
    Ok(work)
}

/// The stored property with what the incoming one brings.
fn merge(stored: &Parameter, incoming: Parameter) -> (r: Result<Parameter, UpdateError>)
    ensures
        match merged(stored@, incoming@) {
            Ok(v) => r matches Ok(x) && x@ == v,
            Err(f) => r matches Err(e) && e@ == f,
        },
{
    let state = if incoming.state.is_some() {
        incoming.state
    } else {
        stored.state
    };
    let timeout = if incoming.timeout.is_some() {
        incoming.timeout
    } else {
        stored.timeout
    };
    let timestamp = if incoming.timestamp.is_some() {
        incoming.timestamp
    } else {
        stored.timestamp
    };
    let elements = merge_elements(&stored.elements, incoming.elements)?;
    Ok(
        Parameter {
            kind: stored.kind,
            device: copy_text(&stored.device),
            name: copy_text(&stored.name),
            label: copy_optional(&stored.label),
            group: copy_optional(&stored.group),
            state,
            perm: stored.perm,
            rule: stored.rule,
            timeout,
            timestamp,
            elements,
        },
    )
}

/// The elements of a definition, one for each name.
fn settle(elements: Vec<Element>) -> (r: Vec<Element>)
    ensures
        elements_view(r@) == by_name(elements_view(elements@)),
{
    let mut rest = elements;
    let mut work: Vec<Element> = Vec::new();
    assert(elements_view(work@) =~= Seq::empty());
    while rest.len() > 0
        invariant
            by_name(elements_view(elements@)) == placed_all(
                elements_view(work@),
                elements_view(rest@),
            ),
        decreases rest@.len(),
    {
        let ghost rest_before = elements_view(rest@);
        let ghost work_before = elements_view(work@);
        let item = rest.remove(0);
        assert(elements_view(rest@) =~= rest_before.skip(1));
        assert(rest_before[0] == item@);
        match find_by_name(&work, &item.name) {
            Some(i) => {
                work.set(i, item);
                assert(elements_view(work@) =~= work_before.update(i as int, rest_before[0]));
            },
            None => {
                work.push(item);
                assert(elements_view(work@) =~= work_before.push(rest_before[0]));
            },
        }
    }
    work
}

/// A defined property as the store holds it.
fn stored(p: Parameter) -> (r: Parameter)
    ensures
        r@ == stored_form(p@),
        distinct_names(r@.elements),
{
    proof {
        lemma_placed_all_distinct(Seq::empty(), p@.elements);
    }
    let Parameter {
        kind,
        device,
        name,
        label,
        group,
        state,
        perm,
        rule,
        timeout,
        timestamp,
        elements,
    } = p;
    Parameter {
        kind,
        device,
        name,
        label,
        group,
        state,
        perm,
        rule,
        timeout,
        timestamp,
        elements: settle(elements),
    }
}

fn find_parameter(ps: &Vec<Parameter>, name: &String) -> (r: Option<usize>)
    ensures
        match r {
            Some(i) => i < ps@.len() && ps@[i as int].name@ == name@,
            None => position(parameter_keys(ps@), name@) is None,
        },
{
    let mut i: usize = 0;
    while i < ps.len()
        invariant
            i <= ps@.len(),
            forall|j: int| 0 <= j < i ==> parameter_keys(ps@)[j] != name@,
        decreases ps@.len() - i,
    {
        if ps[i].name == *name {
            return Some(i);
        }
        i += 1;
    }
    None
}

fn find_device(ds: &Vec<Device>, name: &String) -> (r: Option<usize>)
    ensures
        match r {
            Some(i) => i < ds@.len() && ds@[i as int].name@ == name@,
            None => position(device_keys(ds@), name@) is None,
        },
{
    let mut i: usize = 0;
    while i < ds.len()
        invariant
            i <= ds@.len(),
            forall|j: int| 0 <= j < i ==> device_keys(ds@)[j] != name@,
        decreases ds@.len() - i,
    {
        if ds[i].name == *name {
            return Some(i);
        }
        i += 1;
    }
    None
}

impl Device {
    /// Puts a property in place of the one of its name, or adds it.
    fn put(&mut self, p: Parameter)
        requires
            old(self).well_formed(),
            distinct_names(p@.elements),
        ensures
            final(self).well_formed(),
            final(self).name == old(self).name,
            final(self)@ == old(self)@.insert(p.name@, p@),
    {
        let ghost keys = parameter_keys(self.parameters@);
        let ghost views = parameter_views(self.parameters@);
        match find_parameter(&self.parameters, &p.name) {
            Some(j) => {
                proof {
                    lemma_table_update(keys, views, j as int, p@);
                }
                self.parameters.set(j, p);
                assert(parameter_keys(self.parameters@) =~= keys);
                assert(parameter_views(self.parameters@) =~= views.update(j as int, p@));
            },
            None => {
                proof {
                    lemma_table_push(keys, views, p.name@, p@);
                }
                self.parameters.push(p);
                assert(parameter_keys(self.parameters@) =~= keys.push(p.name@));
                assert(parameter_views(self.parameters@) =~= views.push(p@));
            },
        }
    }
}

/// The store of a client: the devices that the server has defined.
#[derive(Debug)]
pub struct Client {
    devices: Vec<Device>,
}

impl View for Client {
    type V = Devices;

    closed spec fn view(&self) -> Devices {
        table(device_keys(self.devices@), device_views(self.devices@))
    }
}

impl Client {
    /// No two devices have one name, nor two properties of a device.
    pub closed spec fn well_formed(&self) -> bool {
        &&& device_keys(self.devices@).no_duplicates()
        &&& forall|i: int| 0 <= i < self.devices@.len() ==> (#[trigger] self.devices@[i]).well_formed()
    }

    /// A store without devices.
    pub fn new() -> (c: Client)
        ensures
            c.well_formed(),
            c@ == Map::<Key, Properties>::empty(),
    {
        let c = Client { devices: Vec::new() };
        assert(c@ =~= Map::<Key, Properties>::empty());
        c
    }

    /// The devices of the store, with their properties.
    pub fn devices(&self) -> (r: &Vec<Device>)
        ensures
            self@ == table(device_keys(r@), device_views(r@)),
            self.well_formed() ==> device_keys(r@).no_duplicates(),
    {
        &self.devices
    }

    /// Puts `device`, which was taken from position `i`, back there.
    fn restore(&mut self, i: usize, device: Device, Ghost(before): Ghost<Seq<Device>>)
        requires
            i < before.len(),
            old(self).devices@ == before.remove(i as int),
            device.name == before[i as int].name,
            device.well_formed(),
            device_keys(before).no_duplicates(),
            forall|j: int| 0 <= j < before.len() ==> (#[trigger] before[j]).well_formed(),
        ensures
            final(self).well_formed(),
            final(self)@ == table(device_keys(before), device_views(before)).insert(
                device.name@,
                device@,
            ),
    {
        proof {
            lemma_table_update(device_keys(before), device_views(before), i as int, device@);
        }
        self.devices.insert(i, device);
        assert(self.devices@ =~= before.update(i as int, device));
        assert(device_keys(self.devices@) =~= device_keys(before));
        assert(device_views(self.devices@) =~= device_views(before).update(i as int, device@));
    }

    fn define(&mut self, p: Parameter)
        requires
            old(self).well_formed(),
        ensures
            final(self).well_formed(),
            final(self)@ == defined(old(self)@, p@),
    {
        let ghost before = self.devices@;
        let ghost keys = device_keys(before);
        let ghost views = device_views(before);
        let p = stored(p);
        match find_device(&self.devices, &p.device) {
            Some(i) => {
                proof {
                    lemma_position(keys, i as int);
                }
                let mut device = self.devices.remove(i);
                device.put(p);
                self.restore(i, device, Ghost(before));
            },
            None => {
                let mut device = Device { name: copy_text(&p.device), parameters: Vec::new() };
                assert(device@ =~= Map::<Key, ParameterView>::empty());
                device.put(p);
                proof {
                    lemma_table_push(keys, views, device.name@, device@);
                }
                self.devices.push(device);
                assert(device_keys(self.devices@) =~= keys.push(device.name@));
                assert(device_views(self.devices@) =~= views.push(device@));
            },
        }
    }

    fn change(&mut self, p: Parameter) -> (r: Result<(), UpdateError>)
        requires
            old(self).well_formed(),
        ensures
            final(self).well_formed(),
            match updated(old(self)@, p@) {
                Ok(state) => r is Ok && final(self)@ == state,
                Err(f) => r matches Err(e) && e@ == f && final(self)@ == old(self)@,
            },
    {
        let ghost before = self.devices@;
        let ghost keys = device_keys(before);
        let i = match find_device(&self.devices, &p.device) {
            Some(i) => i,
            None => {
                return Err(UpdateError::UndefinedProperty(p.name));
            },
        };
        proof {
            lemma_position(keys, i as int);
        }
        let ghost pkeys = parameter_keys(before[i as int].parameters@);
        let j = match find_parameter(&self.devices[i].parameters, &p.name) {
            Some(j) => j,
            None => {
                return Err(UpdateError::UndefinedProperty(p.name));
            },
        };
        proof {
            lemma_position(pkeys, j as int);
        }
        let stored = &self.devices[i].parameters[j];
        if !kind_is(stored.kind, p.kind) {
            return Err(UpdateError::UndefinedProperty(p.name));
        }
        let ghost held = stored@.elements;
        proof {
            assert(before[i as int].well_formed());
            assert(distinct_names(before[i as int].parameters@[j as int]@.elements));
            if with_values(held, p@.elements) is Ok {
                lemma_with_values_keeps_names(held, p@.elements);
            }
        }
        let q = merge(stored, p)?;
        assert(distinct_names(q@.elements)) by {
            let es = with_values(held, p@.elements)->Ok_0;
            assert(q@.elements == es);
            assert forall|a: int, b: int| 0 <= a < b < es.len() implies es[a].name
                != es[b].name by {
                assert(es[a].name == held[a].name);
                assert(es[b].name == held[b].name);
            }
        }
        let mut device = self.devices.remove(i);
        device.put(q);
        self.restore(i, device, Ghost(before));
        Ok(())
    }

    fn delete(&mut self, d: DelProperty) -> (r: Result<(), UpdateError>)
        requires
            old(self).well_formed(),
        ensures
            final(self).well_formed(),
            match deleted(old(self)@, d.device@, text_view(d.name)) {
                Ok(state) => r is Ok && final(self)@ == state,
                Err(f) => r matches Err(e) && e@ == f && final(self)@ == old(self)@,
            },
    {
        let ghost before = self.devices@;
        let ghost keys = device_keys(before);
        let ghost views = device_views(before);
        let DelProperty { device: device_name, name } = d;
        let found = find_device(&self.devices, &device_name);
        match name {
            None => match found {
                None => Err(UpdateError::UndefinedDevice(device_name)),
                Some(i) => {
                    proof {
                        lemma_position(keys, i as int);
                        lemma_table_remove(keys, views, i as int);
                    }
                    self.devices.remove(i);
                    assert(device_keys(self.devices@) =~= keys.remove(i as int));
                    assert(device_views(self.devices@) =~= views.remove(i as int));
                    Ok(())
                },
            },
            Some(name) => {
                let i = match found {
                    Some(i) => i,
                    None => {
                        return Err(UpdateError::UndefinedProperty(name));
                    },
                };
                proof {
                    lemma_position(keys, i as int);
                }
                let ghost pkeys = parameter_keys(before[i as int].parameters@);
                let ghost pviews = parameter_views(before[i as int].parameters@);
                let j = match find_parameter(&self.devices[i].parameters, &name) {
                    Some(j) => j,
                    None => {
                        return Err(UpdateError::UndefinedProperty(name));
                    },
                };
                proof {
                    lemma_position(pkeys, j as int);
                    lemma_table_remove(pkeys, pviews, j as int);
                }
                let mut device = self.devices.remove(i);
                let ghost held = device.parameters@;
                device.parameters.remove(j);
                assert(parameter_keys(device.parameters@) =~= pkeys.remove(j as int));
                assert(parameter_views(device.parameters@) =~= pviews.remove(j as int));
                assert forall|k: int| 0 <= k < device.parameters@.len() implies distinct_names(
                    (#[trigger] device.parameters@[k])@.elements,
                ) by {
                    let k0 = if k < j {
                        k
                    } else {
                        k + 1
                    };
                    assert(device.parameters@[k] == held[k0]);
                }
                self.restore(i, device, Ghost(before));
                Ok(())
            },
        }
    }

    /// Applies a command to the store. A command that fails leaves the
    /// store as it was.
    pub fn update(&mut self, command: Command) -> (r: Result<(), UpdateError>)
        requires
            old(self).well_formed(),
        ensures
            final(self).well_formed(),
            match apply(old(self)@, command@) {
                Ok(state) => r is Ok && final(self)@ == state,
                Err(f) => r matches Err(e) && e@ == f && final(self)@ == old(self)@,
            },
    {
        match command {
            Command::DefParameter(p) => {
                self.define(p);
                Ok(())
            },
            Command::SetParameter(p) => self.change(p),
            Command::NewParameter(p) => self.change(p),
            Command::DelProperty(d) => self.delete(d),
            Command::Message(_) => Ok(()),
            Command::GetProperties(_) => Ok(()),
        }
    }

    /// The property `name` of `device`, if it is in the store.
    pub fn get(&self, device: &str, name: &str) -> (r: Option<&Parameter>)
        requires
            self.well_formed(),
        ensures
            match r {
                Some(p) => self@.contains_key(device@) && self@[device@].contains_key(name@)
                    && self@[device@][name@] == p@,
                None => !(self@.contains_key(device@) && self@[device@].contains_key(name@)),
            },
    {
        let device = device.to_owned();
        let name = name.to_owned();
        let i = match find_device(&self.devices, &device) {
            Some(i) => i,
            None => {
                return None;
            },
        };
        proof {
            lemma_position(device_keys(self.devices@), i as int);
        }
        let j = match find_parameter(&self.devices[i].parameters, &name) {
            Some(j) => j,
            None => {
                return None;
            },
        };
        proof {
            lemma_position(parameter_keys(self.devices@[i as int].parameters@), j as int);
        }
        Some(&self.devices[i].parameters[j])
    }
}

fn kind_is(a: Kind, b: Kind) -> (r: bool)
    ensures
        r == (a == b),
{
    match (a, b) {
        (Kind::Number, Kind::Number) => true,
        (Kind::Text, Kind::Text) => true,
        (Kind::Switch, Kind::Switch) => true,
        (Kind::Light, Kind::Light) => true,
        (Kind::Blob, Kind::Blob) => true,
        _ => false,
    }
}

/// Whether `k` is the position of the first element of the name.
pub open spec fn is_first(es: Seq<ElementView>, name: Key, k: int) -> bool {
    0 <= k < es.len() && es[k].name == name && forall|j: int| 0 <= j < k ==> es[j].name != name
}

proof fn lemma_first_exists(es: Seq<ElementView>, name: Key, i: int)
    requires
        0 <= i < es.len(),
        es[i].name == name,
    ensures
        exists|k: int| is_first(es, name, k),
    decreases i,
{
    if forall|j: int| 0 <= j < i ==> es[j].name != name {
        assert(is_first(es, name, i));
    } else {
        let j = choose|j: int| 0 <= j < i && es[j].name == name;
        lemma_first_exists(es, name, j);
    }
}

/// What `find_element` finds has the name, and is the first that has.
pub proof fn lemma_found_element(es: Seq<ElementView>, name: Key)
    requires
        find_element(es, name) is Some,
    ensures
        is_first(es, name, find_element(es, name).unwrap()),
{
    reveal(find_element);
    let i = choose|i: int| 0 <= i < es.len() && es[i].name == name;
    lemma_first_exists(es, name, i);
    let k = choose|k: int| is_first(es, name, k);
    lemma_find_element(es, name, k);
}

/// An update or a request for a property that was never defined for
/// its device fails with "undefined property".
pub proof fn lemma_update_of_undefined(state: Devices, p: ParameterView)
    requires
        !(state.contains_key(p.device) && state[p.device].contains_key(p.name)),
    ensures
        apply(state, CommandView::SetParameter(p)) == Err::<Devices, UpdateFault>(
            UpdateFault::UndefinedProperty(p.name),
        ),
        apply(state, CommandView::NewParameter(p)) == Err::<Devices, UpdateFault>(
            UpdateFault::UndefinedProperty(p.name),
        ),
{
}

/// Deleting a property removes that property and nothing else.
pub proof fn lemma_delete_property(state: Devices, device: Key, name: Key)
    requires
        state.contains_key(device),
        state[device].contains_key(name),
    ensures
        deleted(state, device, Some(name)) matches Ok(after) && {
            &&& after.contains_key(device)
            &&& !after[device].contains_key(name)
            &&& forall|n: Key|
                n != name ==> after[device].contains_key(n) == state[device].contains_key(n)
            &&& forall|n: Key|
                n != name && state[device].contains_key(n) ==> after[device][n]
                    == state[device][n]
            &&& forall|d: Key| d != device ==> after.contains_key(d) == state.contains_key(d)
            &&& forall|d: Key| d != device && state.contains_key(d) ==> after[d] == state[d]
        },
{
}

/// Deleting a device removes the device with all its properties, and
/// no other device.
pub proof fn lemma_delete_device(state: Devices, device: Key)
    requires
        state.contains_key(device),
    ensures
        deleted(state, device, None) matches Ok(after) && {
            &&& !after.contains_key(device)
            &&& forall|d: Key| d != device ==> after.contains_key(d) == state.contains_key(d)
            &&& forall|d: Key| d != device && state.contains_key(d) ==> after[d] == state[d]
        },
{
}

/// After a definition, an update that names one of the defined
/// elements replaces the value of that element and leaves every other
/// element as the definition left it.
pub proof fn lemma_update_of_one_element(state: Devices, def: ParameterView, set: ParameterView)
    requires
        set.device == def.device,
        set.name == def.name,
        set.kind == def.kind,
        set.elements.len() == 1,
        find_element(by_name(def.elements), set.elements[0].name) is Some,
    ensures
        updated(defined(state, def), set) matches Ok(after) && {
            let held = by_name(def.elements);
            let i = find_element(held, set.elements[0].name).unwrap();
            let q = after[def.device][def.name];
            &&& after.contains_key(def.device)
            &&& after[def.device].contains_key(def.name)
            &&& q.elements.len() == held.len()
            &&& 0 <= i < held.len()
            &&& q.elements[i].name == held[i].name
            &&& q.elements[i].value == set.elements[0].value
            &&& forall|j: int| 0 <= j < held.len() && j != i ==> q.elements[j] == held[j]
        },
{
    let held = by_name(def.elements);
    let name = set.elements[0].name;
    lemma_found_element(held, name);
    let i = find_element(held, name).unwrap();
    let stored = defined(state, def)[def.device][def.name];
    assert(stored == stored_form(def));
    let es = held.update(i, revalued(held[i], set.elements[0]));
    assert(set.elements.skip(1).len() == 0);
    assert(with_values(es, set.elements.skip(1)) == Ok::<Seq<ElementView>, UpdateFault>(es));
    assert(with_values(held, set.elements) == Ok::<Seq<ElementView>, UpdateFault>(es));
}

/// A definition whose elements have distinct names is stored as it is.
pub proof fn lemma_by_name_of_distinct(done: Seq<ElementView>, rest: Seq<ElementView>)
    requires
        distinct_names(done + rest),
    ensures
        placed_all(done, rest) == done + rest,
    decreases rest.len(),
{
    if rest.len() == 0 {
        assert(done + rest =~= done);
    } else {
        let all = done + rest;
        assert(all[done.len() as int] == rest[0]);
        assert forall|j: int| 0 <= j < done.len() implies done[j].name != rest[0].name by {
            assert(all[j] == done[j]);
        }
        lemma_find_no_element(done, rest[0].name);
        assert(done.push(rest[0]) + rest.skip(1) =~= all);
        lemma_by_name_of_distinct(done.push(rest[0]), rest.skip(1));
    }
}

} // verus!
