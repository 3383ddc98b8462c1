//! USB devices as a second factor.

use vstd::prelude::*;
use crate::text;

verus! {

/// The vendor of the root hubs, which are no devices of their own.
pub const ROOT_HUB_VENDOR: &'static str = "1d6b";

/// A USB device that can serve as a second factor.
pub struct UsbDev {
    /// `vendor:product[:serial]`
    pub id: String,
    pub name: String,
}

impl View for UsbDev {
    type V = (Seq<char>, Seq<char>);

    open spec fn view(&self) -> (Seq<char>, Seq<char>) {
        (self.id@, self.name@)
    }
}

/// The attribute files of a node, as far as they could be read.
pub struct SysNode {
    pub id_vendor: Option<String>,
    pub id_product: Option<String>,
    pub serial: Option<String>,
    pub product: Option<String>,
    pub manufacturer: Option<String>,
}

/// What the attribute files of a node hold.
pub struct Attributes {
    pub id_vendor: Option<Seq<char>>,
    pub id_product: Option<Seq<char>>,
    pub serial: Option<Seq<char>>,
    pub product: Option<Seq<char>>,
    pub manufacturer: Option<Seq<char>>,
}

impl View for SysNode {
    type V = Attributes;

    open spec fn view(&self) -> Attributes {
        Attributes {
            id_vendor: text::maybe(self.id_vendor),
            id_product: text::maybe(self.id_product),
            serial: text::maybe(self.serial),
            product: text::maybe(self.product),
            manufacturer: text::maybe(self.manufacturer),
        }
    }
}

/// The value of an attribute: its text without white space at the ends, in
/// lower case, where anything is left.
pub open spec fn attribute(raw: Option<Seq<char>>) -> Option<Seq<char>> {
    match raw {
        Some(s) => {
            let v = text::lowered(text::trimmed(s));
            if v.len() > 0 {
                Some(v)
            } else {
                None
            }
        },
        None => None,
    }
}

/// What a device is known by.
pub open spec fn usb_id(
    vendor: Seq<char>,
    product: Seq<char>,
    serial: Option<Seq<char>>,
) -> Seq<char> {
    match serial {
        Some(s) => vendor + ":"@ + product + ":"@ + s,
        None => vendor + ":"@ + product,
    }
}

/// What a device is called: by its product, or else by its maker.
pub open spec fn usb_name(a: Attributes) -> Seq<char> {
    match attribute(a.product) {
        Some(p) => p,
        None => match attribute(a.manufacturer) {
            Some(m) => m,
            None => "unknown device"@,
        },
    }
}

/// The device that a node is, if it is one: a node without a vendor or a
/// product is an interface, and root hubs are left out.
pub open spec fn device_of(a: Attributes) -> Option<(Seq<char>, Seq<char>)> {
    match (attribute(a.id_vendor), attribute(a.id_product)) {
        (Some(v), Some(p)) => {
            if v == ROOT_HUB_VENDOR@ {
                None
            } else {
                Some((usb_id(v, p, attribute(a.serial)), usb_name(a)))
            }
        },
        _ => None,
    }
}

/// The devices among a row of nodes, in order.
pub open spec fn devices_of(nodes: Seq<SysNode>) -> Seq<(Seq<char>, Seq<char>)>
    decreases nodes.len(),
{
    if nodes.len() == 0 {
        Seq::empty()
    } else {
        let before = devices_of(nodes.drop_last());
        match device_of(nodes.last()@) {
            Some(d) => before.push(d),
            None => before,
        }
    }
}

/// Each device by its view.
pub open spec fn device_views(v: Seq<UsbDev>) -> Seq<(Seq<char>, Seq<char>)> {
    v.map_values(|d: UsbDev| d@)
}

/// The value of an attribute, from what its file holds.
pub fn read_sys(raw: &Option<String>) -> (r: Option<String>)
    ensures
        text::maybe(r) == attribute(text::maybe(*raw)),
{
    match raw {
        Some(s) => {
            let v: String = text::to_ascii_lowercase(text::trim(s.as_str()).as_str());
            if v.as_str().is_empty() {
                None
            } else {
                Some(v)
            }
        },
        None => None,
    }
}

/// The device that a node is, if it is one.
pub fn usb_device(node: &SysNode) -> (r: Option<UsbDev>)
    ensures
        match r {
            Some(d) => device_of(node@) == Some(d@),
            None => device_of(node@) is None,
        },
{
    let vendor: String = match read_sys(&node.id_vendor) {
        Some(v) => v,
        None => {
            return None;
        },
    };
    let product: String = match read_sys(&node.id_product) {
        Some(p) => p,
        None => {
            return None;
        },
    };
    if text::same_text(&vendor, ROOT_HUB_VENDOR) {
        return None;
    }
    let mut id: String = text::join3(vendor.as_str(), ":", product.as_str());
    match read_sys(&node.serial) {
        Some(s) => {
            id.append(":");
            id.append(s.as_str());
        },
        None => {},
    }
    let name: String = match read_sys(&node.product) {
        Some(p) => p,
        None => match read_sys(&node.manufacturer) {
            Some(m) => m,
            None => "unknown device".to_owned(),
        },
    };
    Some(UsbDev { id, name })
}

/// The devices among a row of nodes, in order.
pub fn list_usb(nodes: &Vec<SysNode>) -> (r: Vec<UsbDev>)
    ensures
        device_views(r@) == devices_of(nodes@),
{
    let mut r: Vec<UsbDev> = Vec::new();
    let mut i: usize = 0;
    assert(nodes@.take(0) =~= Seq::empty());
    assert(device_views(r@) =~= Seq::empty());
    while i < nodes.len()
        invariant
            i <= nodes@.len(),
            device_views(r@) == devices_of(nodes@.take(i as int)),
        decreases nodes@.len() - i,
    {
        let ghost before = r@;
        assert(nodes@.take(i + 1).drop_last() =~= nodes@.take(i as int));
        assert(nodes@.take(i + 1).last() == nodes@[i as int]);
        match usb_device(&nodes[i]) {
            Some(d) => {
                r.push(d);
                assert(device_views(r@) =~= device_views(before).push(d@));
            },
            None => {},
        }
        i += 1;
    }
    assert(nodes@.take(nodes@.len() as int) =~= nodes@);
    r
}

/// A required device is named by vendor and product alone, without a serial.
pub open spec fn names_any_serial(required: Seq<char>) -> bool {
    let p = text::position(required, ':');
    p < required.len() && text::position(required.skip(p + 1), ':') >= required.len() - p - 1
}

/// A device is the one that is required. Case makes no difference, and where no
/// serial is required, any will do.
pub open spec fn is_required(required: Seq<char>, id: Seq<char>) -> bool {
    let r = text::lowered(required);
    id == r || names_any_serial(r) && text::starts_with(id, r + ":"@)
}

/// The required device is among those that are there. Where none is required,
/// nothing is missing.
pub open spec fn present(
    required: Option<Seq<char>>,
    devices: Seq<(Seq<char>, Seq<char>)>,
) -> bool {
    match required {
        None => true,
        Some(r) => exists|i: int| 0 <= i < devices.len() && is_required(r, (#[trigger] devices[i]).0),
    }
}

/// Tells whether the required device is among those that are there.
pub fn is_present(required: &Option<String>, devices: &Vec<UsbDev>) -> (r: bool)
    ensures
        r == present(text::maybe(*required), device_views(devices@)),
{
    let wanted: String = match required {
        None => {
            return true;
        },
        Some(s) => text::to_ascii_lowercase(s.as_str()),
    };
    let v: Vec<char> = text::chars_of(wanted.as_str());
    let n: usize = v.len();
    let p: usize = text::find_char(&v, 0, n, ':');
    assert(v@.subrange(0, n as int) =~= wanted@);
    let any_serial: bool = if p < n {
        assert(wanted@.skip(p + 1) =~= v@.subrange(p + 1, n as int));
        text::find_char(&v, p + 1, n, ':') == n
    } else {
        false
    };
    proof {
        text::lemma_position(wanted@, ':');
        if p < n {
            text::lemma_position(wanted@.skip(p + 1), ':');
        }
    }
    assert(any_serial == names_any_serial(wanted@));
    let head: String = text::join(wanted.as_str(), ":");
    let ghost all = device_views(devices@);
    let mut i: usize = 0;
    while i < devices.len()
        invariant
            i <= devices@.len(),
            all == device_views(devices@),
            required is Some,
            wanted@ == text::lowered(required.unwrap()@),
            any_serial == names_any_serial(wanted@),
            head@ == wanted@ + ":"@,
            forall|k: int| 0 <= k < i ==> !is_required(required.unwrap()@, (#[trigger] all[k]).0),
        decreases devices@.len() - i,
    {
        assert(all[i as int] == devices@[i as int]@);
        if text::same_text(&devices[i].id, wanted.as_str()) || (any_serial && text::has_prefix(
            devices[i].id.as_str(),
            head.as_str(),
        )) {
            assert(is_required(required.unwrap()@, all[i as int].0));
            return true;
        }
        i += 1;
    }
    false
}

/// A letter in lower case is white space only where it was so before.
proof fn lemma_lowered_trimmed(s: Seq<char>)
    requires
        text::is_trimmed(s),
    ensures
        text::is_trimmed(text::lowered(s)),
{
    if s.len() > 0 {
        assert(text::lowered(s)[0] == text::ascii_lower(s[0]));
        assert(text::lowered(s).last() == text::ascii_lower(s.last()));
    }
}

proof fn lemma_attribute(raw: Option<Seq<char>>)
    ensures
        attribute(raw) matches Some(v) ==> v.len() > 0 && text::is_trimmed(v),
{
    match raw {
        Some(s) => {
            text::lemma_trimmed(s);
            lemma_lowered_trimmed(text::trimmed(s));
        },
        None => {},
    }
}

/// What a device is known by is never empty and has no white space at its
/// ends.
pub proof fn law_device_ids_are_trimmed(a: Attributes)
    ensures
        device_of(a) matches Some(d) ==> d.0.len() > 0 && text::is_trimmed(d.0),
{
    lemma_attribute(a.id_vendor);
    lemma_attribute(a.id_product);
    lemma_attribute(a.serial);
    match device_of(a) {
        Some(d) => {
            let v = attribute(a.id_vendor).unwrap();
            let p = attribute(a.id_product).unwrap();
            assert(d.0[0] == v[0]);
            match attribute(a.serial) {
                Some(s) => {
                    assert(d.0.last() == s.last());
                },
                None => {
                    assert(d.0.last() == p.last());
                },
            }
        },
        None => {},
    }
}

proof fn lemma_devices_contain(nodes: Seq<SysNode>, k: int)
    requires
        0 <= k < nodes.len(),
        device_of(nodes[k]@) is Some,
    ensures
        exists|i: int|
            0 <= i < devices_of(nodes).len() && #[trigger] devices_of(nodes)[i] == device_of(
                nodes[k]@,
            ).unwrap(),
    decreases nodes.len(),
{
    let before = devices_of(nodes.drop_last());
    let all = devices_of(nodes);
    if k == nodes.len() - 1 {
        assert(all[before.len() as int] == device_of(nodes[k]@).unwrap());
    } else {
        lemma_devices_contain(nodes.drop_last(), k);
        let i = choose|i: int|
            0 <= i < before.len() && #[trigger] before[i] == device_of(
                nodes.drop_last()[k]@,
            ).unwrap();
        assert(all[i] == before[i]);
    }
}

proof fn lemma_lowered_twice(s: Seq<char>)
    ensures
        text::lowered(text::lowered(s)) == text::lowered(s),
{
    assert(text::lowered(text::lowered(s)) =~= text::lowered(s));
}

proof fn lemma_lowered_parts(a: Seq<char>, b: Seq<char>)
    ensures
        text::lowered(a + b) == text::lowered(a) + text::lowered(b),
{
    assert(text::lowered(a + b) =~= text::lowered(a) + text::lowered(b));
}

/// What a device is known by is in lower case.
proof fn lemma_id_is_lowered(a: Attributes)
    requires
        device_of(a) is Some,
    ensures
        text::lowered(device_of(a).unwrap().0) == device_of(a).unwrap().0,
{
    let v = attribute(a.id_vendor).unwrap();
    let p = attribute(a.id_product).unwrap();
    reveal_strlit(":");
    assert(text::lowered(":"@) =~= ":"@);
    lemma_lowered_twice(text::trimmed(a.id_vendor.unwrap()));
    lemma_lowered_twice(text::trimmed(a.id_product.unwrap()));
    lemma_lowered_parts(v, ":"@);
    lemma_lowered_parts(v + ":"@, p);
    match attribute(a.serial) {
        Some(s) => {
            lemma_lowered_twice(text::trimmed(a.serial.unwrap()));
            lemma_lowered_parts(v + ":"@ + p, ":"@);
            lemma_lowered_parts(v + ":"@ + p + ":"@, s);
        },
        None => {},
    }
}

/// A device that was picked is recognised for as long as it is there.
pub proof fn law_a_picked_device_is_recognised(nodes: Seq<SysNode>, k: int)
    requires
        0 <= k < nodes.len(),
        device_of(nodes[k]@) is Some,
    ensures
        present(Some(device_of(nodes[k]@).unwrap().0), devices_of(nodes)),
{
    let d = device_of(nodes[k]@).unwrap();
    lemma_devices_contain(nodes, k);
    lemma_id_is_lowered(nodes[k]@);
    let i = choose|i: int|
        0 <= i < devices_of(nodes).len() && #[trigger] devices_of(nodes)[i] == d;
    assert(is_required(d.0, devices_of(nodes)[i].0));
}

/// A root hub is never offered.
pub proof fn law_root_hubs_are_left_out(a: Attributes)
    requires
        attribute(a.id_vendor) == Some(ROOT_HUB_VENDOR@),
    ensures
        device_of(a) is None,
{
}

/// An attribute is what its file holds without the white space around it, in lower
/// case; a file that holds nothing else, or that is not there, gives none.
pub proof fn law_an_attribute_is_cleaned(front: Seq<char>, core: Seq<char>, back: Seq<char>)
    requires
        forall|i: int| 0 <= i < front.len() ==> text::white_space(#[trigger] front[i]),
        forall|i: int| 0 <= i < back.len() ==> text::white_space(#[trigger] back[i]),
        core.len() > 0,
        text::is_trimmed(core),
    ensures
        attribute(Some(front + core + back)) == Some(text::lowered(core)),
        attribute(Some(front + back)) is None,
        attribute(None) is None,
{
    let none: Seq<char> = Seq::empty();
    text::law_trimming_takes_off_the_ends_only(front, core, back);
    text::law_trimming_takes_off_the_ends_only(front, none, back);
    assert(front + none + back =~= front + back);
}

/// A node with a vendor and a product is a device, unless it is a root hub; its
/// serial, where it has one, is part of what it is known by. A node without one
/// of them is none.
pub proof fn law_what_a_device_is_known_by(
    a: Attributes,
    vendor: Seq<char>,
    product: Seq<char>,
)
    ensures
        attribute(a.id_vendor) is None || attribute(a.id_product) is None ==> device_of(a) is None,
        attribute(a.id_vendor) == Some(vendor) && attribute(a.id_product) == Some(product) ==> {
            &&& vendor == "1d6b"@ ==> device_of(a) is None
            &&& vendor != "1d6b"@ ==> device_of(a) is Some
            &&& vendor != "1d6b"@ && attribute(a.serial) is None ==> device_of(a).unwrap().0
                == vendor + ":"@ + product
            &&& vendor != "1d6b"@ ==> (attribute(a.serial) matches Some(serial) ==> device_of(
                a,
            ).unwrap().0 == vendor + ":"@ + product + ":"@ + serial)
        },
{
}

/// A device is called by its product, or else by its maker, or else unknown; what
/// it is called and what it is known by do not depend on each other.
pub proof fn law_what_a_device_is_called(a: Attributes)
    requires
        device_of(a) is Some,
    ensures
        attribute(a.product) matches Some(p) ==> device_of(a).unwrap().1 == p,
        attribute(a.product) is None ==> (attribute(a.manufacturer) matches Some(m) ==> device_of(
            a,
        ).unwrap().1 == m),
        attribute(a.product) is None && attribute(a.manufacturer) is None ==> device_of(
            a,
        ).unwrap().1 == "unknown device"@,
{
}

/// The devices of a bus are those of its parts, each node for itself, in order.
pub proof fn law_devices_of_the_parts(a: Seq<SysNode>, b: Seq<SysNode>, node: SysNode)
    ensures
        devices_of(a + b) == devices_of(a) + devices_of(b),
        devices_of(seq![node]) == (match device_of(node@) {
            Some(d) => seq![d],
            None => Seq::empty(),
        }),
    decreases b.len(),
{
    let one = seq![node];
    assert(one.drop_last() =~= Seq::<SysNode>::empty());
    assert(devices_of(one.drop_last()) =~= Seq::empty());
    assert(one.last() == node);
    match device_of(node@) {
        Some(d) => {
            assert(devices_of(one) =~= seq![d]);
        },
        None => {},
    }
    if b.len() == 0 {
        assert(a + b =~= a);
        assert(devices_of(a) + devices_of(b) =~= devices_of(a));
    } else {
        law_devices_of_the_parts(a, b.drop_last(), node);
        assert((a + b).drop_last() =~= a + b.drop_last());
        assert((a + b).last() == b.last());
        assert(devices_of(a + b) =~= devices_of(a) + devices_of(b));
    }
}

/// There is no colon in a text.
pub open spec fn without_colon(s: Seq<char>) -> bool {
    forall|i: int| 0 <= i < s.len() ==> #[trigger] s[i] != ':'
}

proof fn lemma_lowered_colon(s: Seq<char>)
    ensures
        without_colon(s) ==> without_colon(text::lowered(s)),
        text::lowered(s).len() == s.len(),
{
    assert forall|i: int| without_colon(s) && 0 <= i < s.len() implies #[trigger] text::lowered(
        s,
    )[i] != ':' by {
        assert(s[i] != ':');
    }
}

/// Two texts with a colon behind each first part are the same only where the
/// parts are.
proof fn lemma_split_at_colon(a: Seq<char>, b: Seq<char>, c: Seq<char>, d: Seq<char>)
    requires
        without_colon(a),
        without_colon(c),
    ensures
        a + seq![':'] + b == c + seq![':'] + d <==> a == c && b == d,
{
    let x = a + seq![':'] + b;
    let y = c + seq![':'] + d;
    text::lemma_position_after(a, ':', b);
    text::lemma_position_after(c, ':', d);
    if x == y {
        assert(x.take(a.len() as int) =~= a);
        assert(y.take(c.len() as int) =~= c);
        assert(x.skip(a.len() as int + 1) =~= b);
        assert(y.skip(c.len() as int + 1) =~= d);
    }
}

/// A device that is required by vendor and product is there exactly where a device
/// of that vendor and product is, with any serial or none; case makes no
/// difference in what is required.
pub proof fn law_required_by_vendor_and_product(
    vendor: Seq<char>,
    product: Seq<char>,
    other_vendor: Seq<char>,
    other_product: Seq<char>,
    serial: Seq<char>,
)
    requires
        without_colon(vendor),
        without_colon(product),
        without_colon(other_vendor),
        without_colon(other_product),
    ensures
        ({
            let same = text::lowered(vendor) == other_vendor && text::lowered(product)
                == other_product;
            let required = vendor + ":"@ + product;
            &&& is_required(required, other_vendor + ":"@ + other_product) <==> same
            &&& is_required(required, other_vendor + ":"@ + other_product + ":"@ + serial) <==> same
        }),
{
    reveal_strlit(":");
    assert(":"@ =~= seq![':']);
    let v = text::lowered(vendor);
    let p = text::lowered(product);
    let r = v + seq![':'] + p;
    lemma_lowered_colon(vendor);
    lemma_lowered_colon(product);
    lemma_lowered_parts(vendor, ":"@);
    lemma_lowered_parts(vendor + ":"@, product);
    assert(text::lowered(":"@) =~= ":"@);
    assert(text::lowered(vendor + ":"@ + product) == r);
    text::lemma_position_after(v, ':', p);
    assert(r.skip(v.len() as int + 1) =~= p);
    text::lemma_position(p, ':');
    assert(names_any_serial(r));
    let short = other_vendor + ":"@ + other_product;
    let long = other_vendor + ":"@ + other_product + ":"@ + serial;
    lemma_split_at_colon(v, p, other_vendor, other_product);
    let rest = other_product + seq![':'] + serial;
    assert(long =~= other_vendor + seq![':'] + rest);
    lemma_split_at_colon(v, p, other_vendor, rest);
    assert(rest[other_product.len() as int] == ':');
    assert(p != rest);
    let head = r + ":"@;
    if text::starts_with(short, head) {
        let tail = short.skip(head.len() as int);
        assert(short =~= short.take(head.len() as int) + tail);
        assert(head + tail =~= v + seq![':'] + (p + seq![':'] + tail));
        assert(short == v + seq![':'] + (p + seq![':'] + tail));
        assert(short =~= other_vendor + seq![':'] + other_product);
        lemma_split_at_colon(v, p + seq![':'] + tail, other_vendor, other_product);
        assert((p + seq![':'] + tail)[p.len() as int] == ':');
    }
    if text::starts_with(long, head) {
        let tail = long.skip(head.len() as int);
        assert(long =~= long.take(head.len() as int) + tail);
        assert(head + tail =~= v + seq![':'] + (p + seq![':'] + tail));
        assert(long == v + seq![':'] + (p + seq![':'] + tail));
        lemma_split_at_colon(v, p + seq![':'] + tail, other_vendor, rest);
        lemma_split_at_colon(p, tail, other_product, serial);
    }
    if v == other_vendor && p == other_product {
        assert(long.take(head.len() as int) =~= head);
    }
}

/// A device that is required with its serial is there exactly where that very
/// device is.
pub proof fn law_required_with_a_serial(
    vendor: Seq<char>,
    product: Seq<char>,
    serial: Seq<char>,
    id: Seq<char>,
)
    requires
        without_colon(vendor),
        without_colon(product),
    ensures
        is_required(vendor + ":"@ + product + ":"@ + serial, id) <==> id == text::lowered(
            vendor,
        ) + ":"@ + text::lowered(product) + ":"@ + text::lowered(serial),
{
    reveal_strlit(":");
    assert(":"@ =~= seq![':']);
    let v = text::lowered(vendor);
    let p = text::lowered(product);
    let s = text::lowered(serial);
    lemma_lowered_colon(vendor);
    lemma_lowered_colon(product);
    lemma_lowered_parts(vendor, ":"@);
    lemma_lowered_parts(vendor + ":"@, product);
    lemma_lowered_parts(vendor + ":"@ + product, ":"@);
    lemma_lowered_parts(vendor + ":"@ + product + ":"@, serial);
    assert(text::lowered(":"@) =~= ":"@);
    let rest = p + seq![':'] + s;
    let r = v + ":"@ + p + ":"@ + s;
    assert(r =~= v + seq![':'] + rest);
    text::lemma_position_after(v, ':', rest);
    assert(r.skip(v.len() as int + 1) =~= rest);
    text::lemma_position_after(p, ':', s);
}

/// The required device is looked for among all devices: it is there where one of
/// them is it, wherever that one stands, and where none is, it is not. Without a
/// requirement nothing is missing.
pub proof fn law_presence_among_the_devices(
    required: Seq<char>,
    a: Seq<(Seq<char>, Seq<char>)>,
    b: Seq<(Seq<char>, Seq<char>)>,
    id: Seq<char>,
    name: Seq<char>,
)
    ensures
        present(None, a),
        !present(Some(required), Seq::empty()),
        present(Some(required), seq![(id, name)]) <==> is_required(required, id),
        present(Some(required), a + b) <==> present(Some(required), a) || present(
            Some(required),
            b,
        ),
{
    let one = seq![(id, name)];
    assert(one[0] == (id, name));
    if present(Some(required), a) {
        let i = choose|i: int| 0 <= i < a.len() && is_required(required, (#[trigger] a[i]).0);
        assert((a + b)[i] == a[i]);
    }
    if present(Some(required), b) {
        let i = choose|i: int| 0 <= i < b.len() && is_required(required, (#[trigger] b[i]).0);
        assert((a + b)[a.len() + i] == b[i]);
    }
    if present(Some(required), a + b) {
        let i = choose|i: int|
            0 <= i < (a + b).len() && is_required(required, (#[trigger] (a + b)[i]).0);
        if i < a.len() {
            assert(a[i] == (a + b)[i]);
        } else {
            assert(b[i - a.len()] == (a + b)[i]);
        }
    }
}

/// What is said of devices and nodes is what they hold.
pub proof fn law_devices_are_what_they_hold(v: Seq<UsbDev>, i: int, n: SysNode)
    requires
        0 <= i < v.len(),
    ensures
        device_views(v).len() == v.len(),
        device_views(v)[i] == (v[i].id@, v[i].name@),
        n@.id_vendor == text::maybe(n.id_vendor),
        n@.id_product == text::maybe(n.id_product),
        n@.serial == text::maybe(n.serial),
        n@.product == text::maybe(n.product),
        n@.manufacturer == text::maybe(n.manufacturer),
{
}

} // verus!
