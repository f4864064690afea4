//! Candidate output devices, in the order the dispatcher tries them: a
//! curated list of common thermal-printer spooler names, then every locally
//! registered spooler device, then the serial ports whose names look like a
//! USB-serial thermal printer.

use vstd::prelude::*;
use vstd::string::*;
use crate::store::lemma_filter_push;

verus! {

/// Whether `needle` occurs as a contiguous run of characters in `hay`
/// (case-sensitive containment).
pub open spec fn contains_sub(hay: Seq<char>, needle: Seq<char>) -> bool {
    exists|k: int|
        0 <= k <= hay.len() - needle.len() && #[trigger] hay.subrange(k, k + needle.len())
            == needle
}

fn match_at(hay: &str, needle: &str, k: usize) -> (r: bool)
    requires
        hay@.len() <= usize::MAX,
        k + needle@.len() <= hay@.len(),
    ensures
        r == (hay@.subrange(k as int, k + needle@.len()) == needle@),
{
    let n = needle.unicode_len();
    let mut j: usize = 0;
    while j < n
        invariant
            j <= n,
            n == needle@.len(),
            hay@.len() <= usize::MAX,
            k + n <= hay@.len(),
            forall|t: int| 0 <= t < j ==> hay@[k + t] == needle@[t],
        decreases n - j,
    {
        let ca = hay.get_char(k + j);
        let cb = needle.get_char(j);
        if ca != cb {
            proof {
                assert(hay@.subrange(k as int, k + needle@.len())[j as int] != needle@[j as int]);
            }
            return false;
        }
        j += 1;
    }
    proof {
        assert(hay@.subrange(k as int, k + needle@.len()) =~= needle@);
    }
    true
}

/// Whether `needle` occurs anywhere in `hay`, as `str::contains` decides it.
pub fn contains_str(hay: &str, needle: &str) -> (r: bool)
    ensures
        r == contains_sub(hay@, needle@),
{
    let h = hay.unicode_len();
    let n = needle.unicode_len();
    if n > h {
        return false;
    }
    if n == 0 {
        proof {
            assert(hay@.subrange(0, 0 + needle@.len() as int) =~= needle@);
            assert(contains_sub(hay@, needle@));
        }
        return true;
    }
    let mut k: usize = 0;
    while k <= h - n
        invariant
            h == hay@.len(),
            n == needle@.len(),
            1 <= n <= h,
            k <= h - n + 1,
            forall|t: int|
                0 <= t < k ==> #[trigger] hay@.subrange(t, t + needle@.len()) != needle@,
        decreases h - k,
    {
        if match_at(hay, needle, k) {
            return true;
        }
        k += 1;
    }
    false
}

/// The name substrings that mark a serial port as a likely thermal printer.
pub open spec fn thermal_patterns() -> Seq<Seq<char>> {
    seq!["USB"@, "ttyUSB"@, "ttyACM"@, "cu.usbserial"@, "cu.usbmodem"@, "POS"@, "Printer"@]
}

/// Whether a serial-port name contains one of the thermal-printer patterns.
pub open spec fn is_thermal_name(name: Seq<char>) -> bool {
    exists|p: int|
        0 <= p < thermal_patterns().len() && contains_sub(name, #[trigger] thermal_patterns()[p])
}

/// Decides whether a serial port's name looks like a thermal printer:
/// exactly when the name contains one of the fixed patterns.
pub fn is_likely_thermal_printer(port_name: &str) -> (r: bool)
    ensures
        r == is_thermal_name(port_name@),
{
    let r = contains_str(port_name, "USB") || contains_str(port_name, "ttyUSB") || contains_str(
        port_name,
        "ttyACM",
    ) || contains_str(port_name, "cu.usbserial") || contains_str(port_name, "cu.usbmodem")
        || contains_str(port_name, "POS") || contains_str(port_name, "Printer");
    proof {
        if r {
            assert(is_thermal_name(port_name@)) by {
                if contains_sub(port_name@, "USB"@) {
                    assert(contains_sub(port_name@, thermal_patterns()[0]));
                } else if contains_sub(port_name@, "ttyUSB"@) {
                    assert(contains_sub(port_name@, thermal_patterns()[1]));
                } else if contains_sub(port_name@, "ttyACM"@) {
                    assert(contains_sub(port_name@, thermal_patterns()[2]));
                } else if contains_sub(port_name@, "cu.usbserial"@) {
                    assert(contains_sub(port_name@, thermal_patterns()[3]));
                } else if contains_sub(port_name@, "cu.usbmodem"@) {
                    assert(contains_sub(port_name@, thermal_patterns()[4]));
                } else if contains_sub(port_name@, "POS"@) {
                    assert(contains_sub(port_name@, thermal_patterns()[5]));
                } else {
                    assert(contains_sub(port_name@, thermal_patterns()[6]));
                }
            };
        } else {
            assert forall|p: int| 0 <= p < thermal_patterns().len() implies !contains_sub(
                port_name@,
                #[trigger] thermal_patterns()[p],
            ) by {
                if p == 0 {
                } else if p == 1 {
                } else if p == 2 {
                } else if p == 3 {
                } else if p == 4 {
                } else if p == 5 {
                } else {
                    assert(thermal_patterns()[p] == "Printer"@);
                }
            }
        }
    }
    r
}

/// The curated spooler device names tried first, in order.
pub open spec fn curated_spooler_names() -> Seq<Seq<char>> {
    seq![
        "USB-001"@,
        "USB001"@,
        "USB-002"@,
        "USB002"@,
        "POS-80"@,
        "TP806"@,
        "TP860"@,
        "Thermal Printer"@,
        "XP-80C"@,
        "ZJ-80"@,
    ]
}

/// The curated spooler device names as strings, in order.
pub fn spooler_candidate_names() -> (r: Vec<String>)
    ensures
        r@.len() == curated_spooler_names().len(),
        forall|i: int| 0 <= i < r@.len() ==> (#[trigger] r@[i])@ == curated_spooler_names()[i],
{
    let mut v: Vec<String> = Vec::new();
    v.push(String::from_str("USB-001"));
    v.push(String::from_str("USB001"));
    v.push(String::from_str("USB-002"));
    v.push(String::from_str("USB002"));
    v.push(String::from_str("POS-80"));
    v.push(String::from_str("TP806"));
    v.push(String::from_str("TP860"));
    v.push(String::from_str("Thermal Printer"));
    v.push(String::from_str("XP-80C"));
    v.push(String::from_str("ZJ-80"));
    v
}

/// How a candidate device is reached: through the native print spooler, or
/// through a serial port.
#[derive(Clone, Copy, Debug, PartialEq, Eq, Structural)]
pub enum TransportKind {
    Spooler,
    Serial,
}

/// One enumerated, not-yet-attempted output target for a print job.
pub struct DeviceCandidate {
    pub kind: TransportKind,
    pub name: String,
}

/// The serial-port names that pass the thermal-printer filter, in order.
pub open spec fn thermal_ports(ports: Seq<String>) -> Seq<String> {
    ports.filter(|p: String| is_thermal_name(p@))
}

/// How many spooler candidates precede the serial ones: the curated names
/// plus the registered devices where the native spooler exists, none
/// elsewhere.
pub open spec fn spooler_prefix_len(use_spooler: bool, registered: Seq<String>) -> nat {
    if use_spooler {
        curated_spooler_names().len() + registered.len()
    } else {
        0nat
    }
}

/// The ordered candidate devices for the given enumerations. On a platform
/// with a native print spooler (`use_spooler`): the curated spooler names,
/// then the locally registered spooler devices in enumeration order, then
/// the serial ports that pass the thermal filter, in enumeration order.
/// Elsewhere the serial ports are the sole source. Enumeration is the
/// caller's (fallible) job; an enumeration that failed is handed in as an
/// empty list.
pub fn build_candidates(use_spooler: bool, registered: &Vec<String>, serial_ports: &Vec<String>) -> (r: Vec<
    DeviceCandidate,
>)
    ensures
        r@.len() == spooler_prefix_len(use_spooler, registered@) + thermal_ports(
            serial_ports@,
        ).len(),
        use_spooler ==> forall|i: int|
            0 <= i < curated_spooler_names().len() ==> (#[trigger] r@[i]).kind
                == TransportKind::Spooler && r@[i].name@ == curated_spooler_names()[i],
        use_spooler ==> forall|i: int|
            0 <= i < registered@.len() ==> (#[trigger] r@[curated_spooler_names().len() + i]).kind
                == TransportKind::Spooler && r@[curated_spooler_names().len() + i].name
                == registered@[i],
        forall|i: int|
            0 <= i < thermal_ports(serial_ports@).len() ==> (#[trigger] r@[spooler_prefix_len(
                use_spooler,
                registered@,
            ) + i]).kind == TransportKind::Serial && r@[spooler_prefix_len(
                use_spooler,
                registered@,
            ) + i].name == thermal_ports(serial_ports@)[i],
{
    let ghost pred = |p: String| is_thermal_name(p@);
    let ghost base = spooler_prefix_len(use_spooler, registered@);
    let ghost ncur = curated_spooler_names().len();
    let mut r: Vec<DeviceCandidate> = Vec::new();
    if use_spooler {
        let curated = spooler_candidate_names();
        let mut i: usize = 0;
        while i < curated.len()
            invariant
                i <= curated@.len(),
                curated@.len() == ncur,
                ncur == curated_spooler_names().len(),
                forall|t: int| 0 <= t < curated@.len() ==> (#[trigger] curated@[t])@
                    == curated_spooler_names()[t],
                r@.len() == i,
                forall|t: int|
                    0 <= t < i ==> (#[trigger] r@[t]).kind == TransportKind::Spooler && r@[t].name@
                        == curated_spooler_names()[t],
            decreases curated@.len() - i,
        {
            r.push(DeviceCandidate { kind: TransportKind::Spooler, name: curated[i].clone() });
            i += 1;
        }
        let mut j: usize = 0;
        while j < registered.len()
            invariant
                j <= registered@.len(),
                ncur == curated_spooler_names().len(),
                r@.len() == ncur + j,
                forall|t: int|
                    0 <= t < ncur ==> (#[trigger] r@[t]).kind == TransportKind::Spooler && r@[t].name@
                        == curated_spooler_names()[t],
                forall|t: int|
                    0 <= t < j ==> (#[trigger] r@[ncur + t]).kind == TransportKind::Spooler && r@[ncur
                        + t].name == registered@[t],
            decreases registered@.len() - j,
        {
            r.push(DeviceCandidate { kind: TransportKind::Spooler, name: registered[j].clone() });
            j += 1;
        }
    }
    let mut k: usize = 0;
    proof {
        reveal(Seq::filter);
        assert(serial_ports@.take(0) =~= Seq::<String>::empty());
    }
    while k < serial_ports.len()
        invariant
            k <= serial_ports@.len(),
            ncur == curated_spooler_names().len(),
            base == spooler_prefix_len(use_spooler, registered@),
            pred == (|p: String| is_thermal_name(p@)),
            r@.len() == base + serial_ports@.take(k as int).filter(pred).len(),
            use_spooler ==> forall|t: int|
                0 <= t < ncur ==> (#[trigger] r@[t]).kind == TransportKind::Spooler && r@[t].name@
                    == curated_spooler_names()[t],
            use_spooler ==> forall|t: int|
                0 <= t < registered@.len() ==> (#[trigger] r@[ncur + t]).kind
                    == TransportKind::Spooler && r@[ncur + t].name == registered@[t],
            forall|t: int|
                0 <= t < serial_ports@.take(k as int).filter(pred).len() ==> (#[trigger] r@[base
                    + t]).kind == TransportKind::Serial && r@[base + t].name
                    == serial_ports@.take(k as int).filter(pred)[t],
        decreases serial_ports@.len() - k,
    {
        let p = &serial_ports[k];
        let thermal = is_likely_thermal_printer(p.as_str());
        proof {
            assert(serial_ports@.take(k + 1) =~= serial_ports@.take(k as int).push(
                serial_ports@[k as int],
            ));
            lemma_filter_push(serial_ports@.take(k as int), serial_ports@[k as int], pred);
            serial_ports@.take(k as int).lemma_filter_len(pred);
            assert(pred(serial_ports@[k as int]) == thermal);
        }
        if thermal {
            r.push(DeviceCandidate { kind: TransportKind::Serial, name: p.clone() });
        }
        k += 1;
    }
    proof {
        assert(serial_ports@.take(serial_ports@.len() as int) =~= serial_ports@);
    }
    r
}

} // verus!
