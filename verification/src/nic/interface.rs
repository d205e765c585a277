use vstd::prelude::*;

verus! {

/// What an `InterfaceBuilder` has been given so far.
pub struct InterfaceSettings {
    pub name: Option<Seq<char>>,
    pub index: Option<u32>,
    pub mac_addr: Option<[u8; 6]>,
    pub ip_addr: Option<[u8; 4]>,
}

/// One part of an `Interface`, as a setter of `InterfaceBuilder` gives it.
pub enum InterfacePart {
    Name(Seq<char>),
    Index(u32),
    MacAddr([u8; 6]),
    IpAddr([u8; 4]),
}

/// The settings of a builder that has been given nothing yet.
pub open spec fn no_settings() -> InterfaceSettings {
    InterfaceSettings { name: None, index: None, mac_addr: None, ip_addr: None }
}

/// `s` with the part `p` given: that part is replaced, the others are kept.
pub open spec fn with_part(s: InterfaceSettings, p: InterfacePart) -> InterfaceSettings {
    match p {
        InterfacePart::Name(n) => InterfaceSettings { name: Some(n), ..s },
        InterfacePart::Index(i) => InterfaceSettings { index: Some(i), ..s },
        InterfacePart::MacAddr(m) => InterfaceSettings { mac_addr: Some(m), ..s },
        InterfacePart::IpAddr(a) => InterfaceSettings { ip_addr: Some(a), ..s },
    }
}

/// The settings of a new builder after the parts `parts` were given, in
/// order.
pub open spec fn settings_after(parts: Seq<InterfacePart>) -> InterfaceSettings
    decreases parts.len(),
{
    if parts.len() == 0 {
        no_settings()
    } else {
        with_part(settings_after(parts.drop_last()), parts.last())
    }
}

/// The name given last among `parts`, if any.
pub open spec fn last_name(parts: Seq<InterfacePart>) -> Option<Seq<char>>
    decreases parts.len(),
{
    if parts.len() == 0 {
        None
    } else {
        match parts.last() {
            InterfacePart::Name(n) => Some(n),
            _ => last_name(parts.drop_last()),
        }
    }
}

/// The index given last among `parts`, if any.
pub open spec fn last_index(parts: Seq<InterfacePart>) -> Option<u32>
    decreases parts.len(),
{
    if parts.len() == 0 {
        None
    } else {
        match parts.last() {
            InterfacePart::Index(i) => Some(i),
            _ => last_index(parts.drop_last()),
        }
    }
}

/// The hardware address given last among `parts`, if any.
pub open spec fn last_mac_addr(parts: Seq<InterfacePart>) -> Option<[u8; 6]>
    decreases parts.len(),
{
    if parts.len() == 0 {
        None
    } else {
        match parts.last() {
            InterfacePart::MacAddr(m) => Some(m),
            _ => last_mac_addr(parts.drop_last()),
        }
    }
}

/// The IPv4 address given last among `parts`, if any.
pub open spec fn last_ip_addr(parts: Seq<InterfacePart>) -> Option<[u8; 4]>
    decreases parts.len(),
{
    if parts.len() == 0 {
        None
    } else {
        match parts.last() {
            InterfacePart::IpAddr(a) => Some(a),
            _ => last_ip_addr(parts.drop_last()),
        }
    }
}

/// Whatever order the parts are given in, a builder holds the value given
/// last for each part, and nothing for a part never given; `build` is owed
/// exactly when every part was given, and then returns those values.
pub proof fn lemma_builder_keeps_last_parts(parts: Seq<InterfacePart>)
    ensures
        settings_after(parts).name == last_name(parts),
        settings_after(parts).index == last_index(parts),
        settings_after(parts).mac_addr == last_mac_addr(parts),
        settings_after(parts).ip_addr == last_ip_addr(parts),
    decreases parts.len(),
{
    if parts.len() > 0 {
        lemma_builder_keeps_last_parts(parts.drop_last());
    }
}

/// Collects the parts of an `Interface` one by one.
pub struct InterfaceBuilder {
    name: Option<String>,
    index: Option<u32>,
    mac_addr: Option<[u8; 6]>,
    ip_addr: Option<[u8; 4]>,
}

impl View for InterfaceBuilder {
    type V = InterfaceSettings;

    closed spec fn view(&self) -> InterfaceSettings {
        InterfaceSettings {
            name: match self.name {
                Some(n) => Some(n@),
                None => None,
            },
            index: self.index,
            mac_addr: self.mac_addr,
            ip_addr: self.ip_addr,
        }
    }
}

/// A network interface: its name, index, hardware address and IPv4 address.
#[derive(Debug)]
pub struct Interface {
    pub name: String,
    pub index: u32,
    pub mac_addr: [u8; 6],
    pub ip_addr: [u8; 4],
}

impl InterfaceBuilder {
    /// A builder that has been given nothing yet.
    pub fn new() -> (res: Self)
        ensures
            res@ == no_settings(),
    {
        InterfaceBuilder { name: None, index: None, mac_addr: None, ip_addr: None }
    }

    /// Sets the name.
    pub fn name(self, name: String) -> (res: Self)
        ensures
            res@ == with_part(self@, InterfacePart::Name(name@)),
    {
        let mut b = self;
        b.name = Some(name);
        b
    }

    /// Sets the index.
    pub fn index(self, index: u32) -> (res: Self)
        ensures
            res@ == with_part(self@, InterfacePart::Index(index)),
    {
        let mut b = self;
        b.index = Some(index);
        b
    }

    /// Sets the hardware address.
    pub fn mac_addr(self, mac_addr: [u8; 6]) -> (res: Self)
        ensures
            res@ == with_part(self@, InterfacePart::MacAddr(mac_addr)),
    {
        let mut b = self;
        b.mac_addr = Some(mac_addr);
        b
    }

    /// Sets the IPv4 address.
    pub fn ip_addr(self, ip_addr: [u8; 4]) -> (res: Self)
        ensures
            res@ == with_part(self@, InterfacePart::IpAddr(ip_addr)),
    {
        let mut b = self;
        b.ip_addr = Some(ip_addr);
        b
    }

    /// The interface with the parts given; every part must have been given.
    pub fn build(self) -> (res: Interface)
        requires
            self@.name is Some,
            self@.index is Some,
            self@.mac_addr is Some,
            self@.ip_addr is Some,
        ensures
            Some(res.name@) == self@.name,
            Some(res.index) == self@.index,
            Some(res.mac_addr) == self@.mac_addr,
            Some(res.ip_addr) == self@.ip_addr,
    {
        Interface {
            name: self.name.unwrap(),
            index: self.index.unwrap(),
            mac_addr: self.mac_addr.unwrap(),
            ip_addr: self.ip_addr.unwrap(),
        }
    }
}

impl Interface {
    pub fn new(name: String, index: u32, mac_addr: [u8; 6], ip_addr: [u8; 4]) -> (res: Self)
        ensures
            res.name@ == name@,
            res.index == index,
            res.mac_addr == mac_addr,
            res.ip_addr == ip_addr,
    {
        Interface { name, index, mac_addr, ip_addr }
    }
}

} // verus!
