//! Platform probe parsers: turn the text that the per-platform hardware
//! probes produce (system files read, or the output of one read-only system
//! utility) into the ordered list of `kind:value` fingerprint components.
//! The surrounding program runs the probes; everything from their raw text
//! to the component list is parsed and proved here.

use vstd::prelude::*;
use crate::errors::IdentityError;
use crate::text::{
    between_seps, between_seps_spec, contains_seq, lines_of, second_token, second_token_spec,
    split_lines, starts_with_seq, str_contains, str_eq, str_starts_with, trim_spec, trim_str,
};

verus! {

/// One component from a labeled value: `prefix` followed by the trimmed
/// text, when the trimmed text is non-empty; nothing otherwise.
pub open spec fn trimmed_labeled(text: Seq<char>, prefix: Seq<char>) -> Seq<Seq<char>> {
    let t = trim_spec(text);
    if t.len() > 0 {
        seq![prefix + t]
    } else {
        Seq::empty()
    }
}

fn push_component(components: &mut Vec<String>, comp: String)
    ensures
        final(components).deep_view() == old(components).deep_view().push(comp@),
{
    let ghost dv0 = components.deep_view();
    let ghost cv = comp@;
    components.push(comp);
    proof {
        assert(components.deep_view() =~= dv0.push(cv));
    }
}

fn push_trimmed_labeled(components: &mut Vec<String>, text: &str, prefix: &str)
    ensures
        final(components).deep_view() == old(components).deep_view() + trimmed_labeled(
            text@,
            prefix@,
        ),
{
    let ghost dv0 = components.deep_view();
    let t = trim_str(text);
    if t.unicode_len() > 0 {
        let mut comp = String::from_str(prefix);
        comp.append(t);
        push_component(components, comp);
        proof {
            assert(components.deep_view() =~= dv0 + trimmed_labeled(text@, prefix@));
        }
    } else {
        proof {
            assert(components.deep_view() =~= dv0 + trimmed_labeled(text@, prefix@));
        }
    }
}

// ---------------------------------------------------------------------
// macOS: `system_profiler SPHardwareDataType` and `ifconfig en0`
// ---------------------------------------------------------------------

/// The component a profiler line contributes for the hardware UUID.
pub open spec fn macos_uuid_part(line: Seq<char>) -> Seq<Seq<char>> {
    if contains_seq(line, "Hardware UUID"@) {
        match between_seps_spec(line, ':') {
            Some(v) => trimmed_labeled(v, "hw_uuid:"@),
            None => Seq::empty(),
        }
    } else {
        Seq::empty()
    }
}

/// The component a profiler line contributes for the serial number; the
/// placeholder `(system)` is not a serial.
pub open spec fn macos_serial_part(line: Seq<char>) -> Seq<Seq<char>> {
    if contains_seq(line, "Serial Number"@) {
        match between_seps_spec(line, ':') {
            Some(v) => {
                let t = trim_spec(v);
                if t.len() > 0 && t != "(system)"@ {
                    seq!["serial:"@ + t]
                } else {
                    Seq::empty()
                }
            },
            None => Seq::empty(),
        }
    } else {
        Seq::empty()
    }
}

pub open spec fn macos_profiler_line(line: Seq<char>) -> Seq<Seq<char>> {
    macos_uuid_part(line) + macos_serial_part(line)
}

/// All components the profiler output contributes, in line order.
pub open spec fn macos_profiler_components(lines: Seq<Seq<char>>) -> Seq<Seq<char>>
    decreases lines.len(),
{
    if lines.len() == 0 {
        Seq::empty()
    } else {
        macos_profiler_line(lines[0]) + macos_profiler_components(lines.drop_first())
    }
}

proof fn lemma_macos_profiler_components_push(lines: Seq<Seq<char>>, l: Seq<char>)
    ensures
        macos_profiler_components(lines.push(l)) == macos_profiler_components(lines)
            + macos_profiler_line(l),
    decreases lines.len(),
{
    if lines.len() == 0 {
        assert(lines.push(l)[0] == l);
        assert(lines.push(l).drop_first() =~= Seq::<Seq<char>>::empty());
        assert(macos_profiler_components(Seq::<Seq<char>>::empty()) =~= Seq::<Seq<char>>::empty());
        assert(macos_profiler_components(lines.push(l)) =~= macos_profiler_components(lines)
            + macos_profiler_line(l));
    } else {
        lemma_macos_profiler_components_push(lines.drop_first(), l);
        assert(lines.push(l).drop_first() =~= lines.drop_first().push(l));
        assert(macos_profiler_components(lines.push(l)) =~= macos_profiler_components(lines)
            + macos_profiler_line(l));
    }
}

/// The component an ifconfig line contributes: the second token of a line
/// that mentions `ether` is the interface's MAC address.
pub open spec fn macos_ether_part(line: Seq<char>) -> Seq<Seq<char>> {
    if contains_seq(line, "ether"@) {
        match second_token_spec(line) {
            Some(tok) => seq!["mac:"@ + tok],
            None => Seq::empty(),
        }
    } else {
        Seq::empty()
    }
}

pub open spec fn macos_ether_components(lines: Seq<Seq<char>>) -> Seq<Seq<char>>
    decreases lines.len(),
{
    if lines.len() == 0 {
        Seq::empty()
    } else {
        macos_ether_part(lines[0]) + macos_ether_components(lines.drop_first())
    }
}

proof fn lemma_macos_ether_components_push(lines: Seq<Seq<char>>, l: Seq<char>)
    ensures
        macos_ether_components(lines.push(l)) == macos_ether_components(lines)
            + macos_ether_part(l),
    decreases lines.len(),
{
    if lines.len() == 0 {
        assert(lines.push(l)[0] == l);
        assert(lines.push(l).drop_first() =~= Seq::<Seq<char>>::empty());
        assert(macos_ether_components(Seq::<Seq<char>>::empty()) =~= Seq::<Seq<char>>::empty());
        assert(macos_ether_components(lines.push(l)) =~= macos_ether_components(lines)
            + macos_ether_part(l));
    } else {
        lemma_macos_ether_components_push(lines.drop_first(), l);
        assert(lines.push(l).drop_first() =~= lines.drop_first().push(l));
        assert(macos_ether_components(lines.push(l)) =~= macos_ether_components(lines)
            + macos_ether_part(l));
    }
}

/// Every component the macOS probes yield, in collection order.
pub open spec fn macos_components_spec(profiler: Seq<char>, ifconfig: Seq<char>) -> Seq<Seq<char>> {
    macos_profiler_components(split_lines(profiler)) + macos_ether_components(
        split_lines(ifconfig),
    )
}

/// Parse the macOS probe outputs into fingerprint components. Fails exactly
/// when the outputs yield no component at all.
pub fn get_macos_components(profiler_out: &str, ifconfig_out: &str) -> (r: Result<
    Vec<String>,
    IdentityError,
>)
    ensures
        macos_components_spec(profiler_out@, ifconfig_out@).len() == 0 ==> r == Err::<
            Vec<String>,
            IdentityError,
        >(IdentityError::NoIdentifiers),
        macos_components_spec(profiler_out@, ifconfig_out@).len() > 0 ==> (r matches Ok(cs)
            && cs.deep_view() == macos_components_spec(profiler_out@, ifconfig_out@)),
{
    let mut components: Vec<String> = Vec::new();
    let lines = lines_of(profiler_out);
    let ghost ldv = lines.deep_view();
    let mut i: usize = 0;
    proof {
        assert(ldv.take(0) =~= Seq::<Seq<char>>::empty());
        assert(components.deep_view() =~= macos_profiler_components(ldv.take(0)));
    }
    while i < lines.len()
        invariant
            0 <= i <= lines@.len(),
            ldv == lines.deep_view(),
            ldv.len() == lines@.len(),
            components.deep_view() == macos_profiler_components(ldv.take(i as int)),
        decreases lines@.len() - i,
    {
        let ls = lines[i].as_str();
        proof {
            assert(ldv[i as int] == lines@[i as int]@);
        }
        let ghost dv0 = components.deep_view();
        if str_contains(ls, "Hardware UUID") {
            match between_seps(ls, ':') {
                Some(v) => push_trimmed_labeled(&mut components, v, "hw_uuid:"),
                None => (),
            }
        }
        proof {
            assert(components.deep_view() =~= dv0 + macos_uuid_part(ls@));
        }
        let ghost dv1 = components.deep_view();
        if str_contains(ls, "Serial Number") {
            match between_seps(ls, ':') {
                Some(v) => {
                    let t = trim_str(v);
                    if t.unicode_len() > 0 && !str_eq(t, "(system)") {
                        let mut comp = String::from_str("serial:");
                        comp.append(t);
                        push_component(&mut components, comp);
                    }
                },
                None => (),
            }
        }
        proof {
            assert(components.deep_view() =~= dv1 + macos_serial_part(ls@));
            assert(components.deep_view() =~= dv0 + macos_profiler_line(ls@));
            lemma_macos_profiler_components_push(ldv.take(i as int), ls@);
            assert(ldv.take(i as int).push(ls@) =~= ldv.take(i + 1));
        }
        i += 1;
    }
    proof {
        assert(ldv.take(ldv.len() as int) =~= ldv);
    }
    let ghost profiler_dv = components.deep_view();
    let elines = lines_of(ifconfig_out);
    let ghost edv = elines.deep_view();
    let mut k: usize = 0;
    proof {
        assert(edv.take(0) =~= Seq::<Seq<char>>::empty());
        assert(components.deep_view() =~= profiler_dv + macos_ether_components(edv.take(0)));
    }
    while k < elines.len()
        invariant
            0 <= k <= elines@.len(),
            edv == elines.deep_view(),
            edv.len() == elines@.len(),
            components.deep_view() == profiler_dv + macos_ether_components(edv.take(k as int)),
        decreases elines@.len() - k,
    {
        let ls = elines[k].as_str();
        proof {
            assert(edv[k as int] == elines@[k as int]@);
        }
        let ghost dv0 = components.deep_view();
        if str_contains(ls, "ether") {
            match second_token(ls) {
                Some(tok) => {
                    let mut comp = String::from_str("mac:");
                    comp.append(tok);
                    push_component(&mut components, comp);
                },
                None => (),
            }
        }
        proof {
            assert(components.deep_view() =~= dv0 + macos_ether_part(ls@));
            lemma_macos_ether_components_push(edv.take(k as int), ls@);
            assert(edv.take(k as int).push(ls@) =~= edv.take(k + 1));
            assert(components.deep_view() =~= profiler_dv + macos_ether_components(
                edv.take(k + 1),
            ));
        }
        k += 1;
    }
    proof {
        assert(edv.take(edv.len() as int) =~= edv);
        assert(components.deep_view() == macos_components_spec(profiler_out@, ifconfig_out@));
    }
    if components.len() == 0 {
        proof {
            assert(components.deep_view().len() == 0);
        }
        Err(IdentityError::NoIdentifiers)
    } else {
        Ok(components)
    }
}

// ---------------------------------------------------------------------
// Linux: system files and the network interface table
// ---------------------------------------------------------------------

/// The machine-id components: the primary file is used whenever it could be
/// read, and the dbus fallback only when it could not.
pub open spec fn machine_id_components(
    primary: Option<Seq<char>>,
    dbus: Option<Seq<char>>,
) -> Seq<Seq<char>> {
    match primary {
        Some(text) => trimmed_labeled(text, "machine_id:"@),
        None => match dbus {
            Some(text) => trimmed_labeled(text, "machine_id:"@),
            None => Seq::empty(),
        },
    }
}

pub open spec fn product_uuid_components(product: Option<Seq<char>>) -> Seq<Seq<char>> {
    match product {
        Some(text) => trimmed_labeled(text, "product_uuid:"@),
        None => Seq::empty(),
    }
}

/// The board-serial component; firmware reports the placeholder `None` for
/// a missing serial, which is not an identifier.
pub open spec fn board_serial_components(board: Option<Seq<char>>) -> Seq<Seq<char>> {
    match board {
        Some(text) => {
            let t = trim_spec(text);
            if t.len() > 0 && t != "None"@ {
                seq!["board_serial:"@ + t]
            } else {
                Seq::empty()
            }
        },
        None => Seq::empty(),
    }
}

/// The component one network interface contributes: virtual interfaces and
/// the all-zero address are skipped.
pub open spec fn iface_mac_component(name: Seq<char>, address: Option<Seq<char>>) -> Option<
    Seq<char>,
> {
    if starts_with_seq(name, "lo"@) || starts_with_seq(name, "docker"@) || starts_with_seq(
        name,
        "veth"@,
    ) {
        None
    } else {
        match address {
            Some(a) => {
                let m = trim_spec(a);
                if m.len() > 0 && m != "00:00:00:00:00:00"@ {
                    Some("mac:"@ + name + ":"@ + m)
                } else {
                    None
                }
            },
            None => None,
        }
    }
}

/// The first physical interface's MAC component, in the enumeration order
/// the interface table was handed over in.
pub open spec fn first_iface_mac(ifaces: Seq<(Seq<char>, Option<Seq<char>>)>) -> Option<Seq<char>>
    decreases ifaces.len(),
{
    if ifaces.len() == 0 {
        None
    } else {
        match iface_mac_component(ifaces[0].0, ifaces[0].1) {
            Some(c) => Some(c),
            None => first_iface_mac(ifaces.drop_first()),
        }
    }
}

proof fn lemma_first_iface_mac_skip(ifaces: Seq<(Seq<char>, Option<Seq<char>>)>, i: int)
    requires
        0 <= i <= ifaces.len(),
        forall|j: int|
            0 <= j < i ==> #[trigger] iface_mac_component(ifaces[j].0, ifaces[j].1) is None,
    ensures
        first_iface_mac(ifaces) == first_iface_mac(ifaces.skip(i)),
    decreases i,
{
    if i > 0 {
        assert(iface_mac_component(ifaces[0].0, ifaces[0].1) is None);
        assert forall|j: int|
            0 <= j < i - 1 implies #[trigger] iface_mac_component(
            ifaces.drop_first()[j].0,
            ifaces.drop_first()[j].1,
        ) is None by {
            assert(ifaces.drop_first()[j] == ifaces[j + 1]);
        }
        lemma_first_iface_mac_skip(ifaces.drop_first(), i - 1);
        assert(ifaces.drop_first().skip(i - 1) =~= ifaces.skip(i));
    } else {
        assert(ifaces.skip(0) =~= ifaces);
    }
}

pub open spec fn mac_components(ifaces: Seq<(Seq<char>, Option<Seq<char>>)>) -> Seq<Seq<char>> {
    match first_iface_mac(ifaces) {
        Some(c) => seq![c],
        None => Seq::empty(),
    }
}

/// Every component the Linux probes yield, in collection order.
pub open spec fn linux_components_spec(
    primary: Option<Seq<char>>,
    dbus: Option<Seq<char>>,
    product: Option<Seq<char>>,
    board: Option<Seq<char>>,
    ifaces: Seq<(Seq<char>, Option<Seq<char>>)>,
) -> Seq<Seq<char>> {
    machine_id_components(primary, dbus) + product_uuid_components(product)
        + board_serial_components(board) + mac_components(ifaces)
}

fn eval_iface(name: &str, address: &Option<String>) -> (r: Option<String>)
    ensures
        match r {
            Some(c) => iface_mac_component(name@, address.deep_view()) == Some(c@),
            None => iface_mac_component(name@, address.deep_view()) is None,
        },
{
    if str_starts_with(name, "lo") || str_starts_with(name, "docker") || str_starts_with(
        name,
        "veth",
    ) {
        return None;
    }
    match address {
        Some(a) => {
            let m = trim_str(a.as_str());
            if m.unicode_len() > 0 && !str_eq(m, "00:00:00:00:00:00") {
                let mut comp = String::from_str("mac:");
                comp.append(name);
                comp.append(":");
                comp.append(m);
                Some(comp)
            } else {
                None
            }
        },
        None => None,
    }
}

fn find_iface_mac(interfaces: &Vec<(String, Option<String>)>) -> (r: Option<String>)
    ensures
        match r {
            Some(c) => first_iface_mac(interfaces.deep_view()) == Some(c@),
            None => first_iface_mac(interfaces.deep_view()) is None,
        },
{
    let ghost idv = interfaces.deep_view();
    let mut i: usize = 0;
    while i < interfaces.len()
        invariant
            0 <= i <= interfaces@.len(),
            idv == interfaces.deep_view(),
            idv.len() == interfaces@.len(),
            forall|j: int|
                0 <= j < i ==> #[trigger] iface_mac_component(idv[j].0, idv[j].1) is None,
        decreases interfaces@.len() - i,
    {
        let entry = &interfaces[i];
        proof {
            assert(idv[i as int] == (entry.0@, entry.1.deep_view()));
        }
        match eval_iface(entry.0.as_str(), &entry.1) {
            Some(comp) => {
                proof {
                    lemma_first_iface_mac_skip(idv, i as int);
                    assert(idv.skip(i as int)[0] == idv[i as int]);
                }
                return Some(comp);
            },
            None => (),
        }
        i += 1;
    }
    proof {
        lemma_first_iface_mac_skip(idv, idv.len() as int);
        assert(idv.skip(idv.len() as int) =~= Seq::<(Seq<char>, Option<Seq<char>>)>::empty());
    }
    None
}

/// Parse the Linux probe results into fingerprint components: the contents
/// of the machine-id files, the DMI product UUID and board serial, and the
/// network interface table as (name, address-file contents) in enumeration
/// order. `None` stands for a file that could not be read. Fails exactly
/// when the probes yield no component at all.
pub fn get_linux_components(
    machine_id: &Option<String>,
    dbus_machine_id: &Option<String>,
    product_uuid: &Option<String>,
    board_serial: &Option<String>,
    interfaces: &Vec<(String, Option<String>)>,
) -> (r: Result<Vec<String>, IdentityError>)
    ensures
        ({
            let spec_comps = linux_components_spec(
                machine_id.deep_view(),
                dbus_machine_id.deep_view(),
                product_uuid.deep_view(),
                board_serial.deep_view(),
                interfaces.deep_view(),
            );
            &&& spec_comps.len() == 0 ==> r == Err::<Vec<String>, IdentityError>(
                IdentityError::NoIdentifiers,
            )
            &&& spec_comps.len() > 0 ==> (r matches Ok(cs) && cs.deep_view() == spec_comps)
        }),
{
    let mut components: Vec<String> = Vec::new();
    proof {
        assert(components.deep_view() =~= Seq::<Seq<char>>::empty());
    }
    match machine_id {
        Some(text) => push_trimmed_labeled(&mut components, text.as_str(), "machine_id:"),
        None => {
            match dbus_machine_id {
                Some(text) => push_trimmed_labeled(&mut components, text.as_str(), "machine_id:"),
                None => (),
            }
        },
    }
    proof {
        assert(components.deep_view() =~= machine_id_components(
            machine_id.deep_view(),
            dbus_machine_id.deep_view(),
        ));
    }
    let ghost dv_mid = components.deep_view();
    match product_uuid {
        Some(text) => push_trimmed_labeled(&mut components, text.as_str(), "product_uuid:"),
        None => (),
    }
    proof {
        assert(components.deep_view() =~= dv_mid + product_uuid_components(
            product_uuid.deep_view(),
        ));
    }
    let ghost dv_prod = components.deep_view();
    match board_serial {
        Some(text) => {
            let t = trim_str(text.as_str());
            if t.unicode_len() > 0 && !str_eq(t, "None") {
                let mut comp = String::from_str("board_serial:");
                comp.append(t);
                push_component(&mut components, comp);
            }
        },
        None => (),
    }
    proof {
        assert(components.deep_view() =~= dv_prod + board_serial_components(
            board_serial.deep_view(),
        ));
    }
    let ghost dv_board = components.deep_view();
    match find_iface_mac(interfaces) {
        Some(comp) => push_component(&mut components, comp),
        None => (),
    }
    proof {
        assert(components.deep_view() =~= dv_board + mac_components(interfaces.deep_view()));
        assert(components.deep_view() =~= linux_components_spec(
            machine_id.deep_view(),
            dbus_machine_id.deep_view(),
            product_uuid.deep_view(),
            board_serial.deep_view(),
            interfaces.deep_view(),
        ));
    }
    if components.len() == 0 {
        proof {
            assert(components.deep_view().len() == 0);
        }
        Err(IdentityError::NoIdentifiers)
    } else {
        Ok(components)
    }
}

// ---------------------------------------------------------------------
// Windows: `wmic` tables and `getmac /fo list`
// ---------------------------------------------------------------------

/// The component one `wmic` table line contributes: the trimmed line, when
/// it is neither empty nor the repeated column header.
pub open spec fn win_labeled_line(
    line: Seq<char>,
    header: Seq<char>,
    prefix: Seq<char>,
) -> Seq<Seq<char>> {
    let t = trim_spec(line);
    if t.len() > 0 && t != header {
        seq![prefix + t]
    } else {
        Seq::empty()
    }
}

pub open spec fn win_labeled_components(
    lines: Seq<Seq<char>>,
    header: Seq<char>,
    prefix: Seq<char>,
) -> Seq<Seq<char>>
    decreases lines.len(),
{
    if lines.len() == 0 {
        Seq::empty()
    } else {
        win_labeled_line(lines[0], header, prefix) + win_labeled_components(
            lines.drop_first(),
            header,
            prefix,
        )
    }
}

proof fn lemma_win_labeled_components_push(
    lines: Seq<Seq<char>>,
    l: Seq<char>,
    header: Seq<char>,
    prefix: Seq<char>,
)
    ensures
        win_labeled_components(lines.push(l), header, prefix) == win_labeled_components(
            lines,
            header,
            prefix,
        ) + win_labeled_line(l, header, prefix),
    decreases lines.len(),
{
    if lines.len() == 0 {
        assert(lines.push(l)[0] == l);
        assert(lines.push(l).drop_first() =~= Seq::<Seq<char>>::empty());
        assert(win_labeled_components(Seq::<Seq<char>>::empty(), header, prefix)
            =~= Seq::<Seq<char>>::empty());
        assert(win_labeled_components(lines.push(l), header, prefix) =~= win_labeled_components(
            lines,
            header,
            prefix,
        ) + win_labeled_line(l, header, prefix));
    } else {
        lemma_win_labeled_components_push(lines.drop_first(), l, header, prefix);
        assert(lines.push(l).drop_first() =~= lines.drop_first().push(l));
        assert(win_labeled_components(lines.push(l), header, prefix) =~= win_labeled_components(
            lines,
            header,
            prefix,
        ) + win_labeled_line(l, header, prefix));
    }
}

/// The components one `wmic` table output contributes: every data line after
/// the header line.
pub open spec fn win_table_components(
    text: Seq<char>,
    header: Seq<char>,
    prefix: Seq<char>,
) -> Seq<Seq<char>> {
    let lines = split_lines(text);
    if lines.len() == 0 {
        Seq::empty()
    } else {
        win_labeled_components(lines.drop_first(), header, prefix)
    }
}

fn append_win_table(components: &mut Vec<String>, text: &str, header: &str, prefix: &str)
    ensures
        final(components).deep_view() == old(components).deep_view() + win_table_components(
            text@,
            header@,
            prefix@,
        ),
{
    let ghost dv0 = components.deep_view();
    let lines = lines_of(text);
    let ghost ldv = lines.deep_view();
    if lines.len() == 0 {
        proof {
            assert(components.deep_view() =~= dv0 + win_table_components(text@, header@, prefix@));
        }
        return ;
    }
    let mut i: usize = 1;
    proof {
        assert(ldv.subrange(1, 1) =~= Seq::<Seq<char>>::empty());
        assert(components.deep_view() =~= dv0 + win_labeled_components(
            ldv.subrange(1, 1),
            header@,
            prefix@,
        ));
    }
    while i < lines.len()
        invariant
            1 <= i <= lines@.len(),
            ldv == lines.deep_view(),
            ldv.len() == lines@.len(),
            components.deep_view() == dv0 + win_labeled_components(
                ldv.subrange(1, i as int),
                header@,
                prefix@,
            ),
        decreases lines@.len() - i,
    {
        let ls = lines[i].as_str();
        proof {
            assert(ldv[i as int] == lines@[i as int]@);
        }
        let ghost dvi = components.deep_view();
        let t = trim_str(ls);
        if t.unicode_len() > 0 && !str_eq(t, header) {
            let mut comp = String::from_str(prefix);
            comp.append(t);
            push_component(components, comp);
        }
        proof {
            assert(components.deep_view() =~= dvi + win_labeled_line(ls@, header@, prefix@));
            lemma_win_labeled_components_push(ldv.subrange(1, i as int), ls@, header@, prefix@);
            assert(ldv.subrange(1, i as int).push(ls@) =~= ldv.subrange(1, i + 1));
            assert(components.deep_view() =~= dv0 + win_labeled_components(
                ldv.subrange(1, i + 1),
                header@,
                prefix@,
            ));
        }
        i += 1;
    }
    proof {
        assert(ldv.subrange(1, ldv.len() as int) =~= ldv.drop_first());
        assert(components.deep_view() =~= dv0 + win_table_components(text@, header@, prefix@));
    }
}

/// The MAC component one `getmac` list line contributes.
pub open spec fn phys_mac_line(line: Seq<char>) -> Option<Seq<char>> {
    if contains_seq(line, "Physical Address"@) {
        match between_seps_spec(line, ':') {
            Some(v) => {
                let t = trim_spec(v);
                if t.len() > 0 {
                    Some("mac:"@ + t)
                } else {
                    None
                }
            },
            None => None,
        }
    } else {
        None
    }
}

/// The first MAC address in the `getmac` output.
pub open spec fn first_phys_mac(lines: Seq<Seq<char>>) -> Option<Seq<char>>
    decreases lines.len(),
{
    if lines.len() == 0 {
        None
    } else {
        match phys_mac_line(lines[0]) {
            Some(c) => Some(c),
            None => first_phys_mac(lines.drop_first()),
        }
    }
}

proof fn lemma_first_phys_mac_skip(lines: Seq<Seq<char>>, i: int)
    requires
        0 <= i <= lines.len(),
        forall|j: int| 0 <= j < i ==> #[trigger] phys_mac_line(lines[j]) is None,
    ensures
        first_phys_mac(lines) == first_phys_mac(lines.skip(i)),
    decreases i,
{
    if i > 0 {
        assert(phys_mac_line(lines[0]) is None);
        assert forall|j: int| 0 <= j < i - 1 implies #[trigger] phys_mac_line(
            lines.drop_first()[j],
        ) is None by {
            assert(lines.drop_first()[j] == lines[j + 1]);
        }
        lemma_first_phys_mac_skip(lines.drop_first(), i - 1);
        assert(lines.drop_first().skip(i - 1) =~= lines.skip(i));
    } else {
        assert(lines.skip(0) =~= lines);
    }
}

pub open spec fn getmac_components(text: Seq<char>) -> Seq<Seq<char>> {
    match first_phys_mac(split_lines(text)) {
        Some(c) => seq![c],
        None => Seq::empty(),
    }
}

fn find_phys_mac(lines: &Vec<String>) -> (r: Option<String>)
    ensures
        match r {
            Some(c) => first_phys_mac(lines.deep_view()) == Some(c@),
            None => first_phys_mac(lines.deep_view()) is None,
        },
{
    let ghost ldv = lines.deep_view();
    let mut i: usize = 0;
    while i < lines.len()
        invariant
            0 <= i <= lines@.len(),
            ldv == lines.deep_view(),
            ldv.len() == lines@.len(),
            forall|j: int| 0 <= j < i ==> #[trigger] phys_mac_line(ldv[j]) is None,
        decreases lines@.len() - i,
    {
        let ls = lines[i].as_str();
        proof {
            assert(ldv[i as int] == lines@[i as int]@);
        }
        if str_contains(ls, "Physical Address") {
            match between_seps(ls, ':') {
                Some(v) => {
                    let t = trim_str(v);
                    if t.unicode_len() > 0 {
                        let mut comp = String::from_str("mac:");
                        comp.append(t);
                        proof {
                            lemma_first_phys_mac_skip(ldv, i as int);
                            assert(ldv.skip(i as int)[0] == ldv[i as int]);
                        }
                        return Some(comp);
                    }
                },
                None => (),
            }
        }
        proof {
            assert(phys_mac_line(ldv[i as int]) is None);
        }
        i += 1;
    }
    proof {
        lemma_first_phys_mac_skip(ldv, ldv.len() as int);
        assert(ldv.skip(ldv.len() as int) =~= Seq::<Seq<char>>::empty());
    }
    None
}

/// Every component the Windows probes yield, in collection order.
pub open spec fn windows_components_spec(
    uuid_out: Seq<char>,
    serial_out: Seq<char>,
    getmac_out: Seq<char>,
) -> Seq<Seq<char>> {
    win_table_components(uuid_out, "UUID"@, "uuid:"@) + win_table_components(
        serial_out,
        "SerialNumber"@,
        "serial:"@,
    ) + getmac_components(getmac_out)
}

/// Parse the Windows probe outputs into fingerprint components. Fails
/// exactly when the outputs yield no component at all.
pub fn get_windows_components(uuid_out: &str, serial_out: &str, getmac_out: &str) -> (r: Result<
    Vec<String>,
    IdentityError,
>)
    ensures
        windows_components_spec(uuid_out@, serial_out@, getmac_out@).len() == 0 ==> r == Err::<
            Vec<String>,
            IdentityError,
        >(IdentityError::NoIdentifiers),
        windows_components_spec(uuid_out@, serial_out@, getmac_out@).len() > 0 ==> (r matches Ok(cs)
            && cs.deep_view() == windows_components_spec(uuid_out@, serial_out@, getmac_out@)),
{
    let mut components: Vec<String> = Vec::new();
    proof {
        assert(components.deep_view() =~= Seq::<Seq<char>>::empty());
        assert(Seq::<Seq<char>>::empty() + win_table_components(uuid_out@, "UUID"@, "uuid:"@)
            =~= win_table_components(uuid_out@, "UUID"@, "uuid:"@));
    }
    append_win_table(&mut components, uuid_out, "UUID", "uuid:");
    let ghost dv_uuid = components.deep_view();
    append_win_table(&mut components, serial_out, "SerialNumber", "serial:");
    let ghost dv_serial = components.deep_view();
    let glines = lines_of(getmac_out);
    match find_phys_mac(&glines) {
        Some(comp) => push_component(&mut components, comp),
        None => (),
    }
    proof {
        assert(components.deep_view() =~= dv_serial + getmac_components(getmac_out@));
        assert(components.deep_view() =~= windows_components_spec(
            uuid_out@,
            serial_out@,
            getmac_out@,
        ));
    }
    if components.len() == 0 {
        proof {
            assert(components.deep_view().len() == 0);
        }
        Err(IdentityError::NoIdentifiers)
    } else {
        Ok(components)
    }
}

} // verus!
