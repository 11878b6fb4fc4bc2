use vstd::prelude::*;
use vstd::string::StringExecFns;

verus! {

/// The decimal digit `d`, for `d` below 10.
pub open spec fn digit_char(d: nat) -> char {
    seq!['0', '1', '2', '3', '4', '5', '6', '7', '8', '9'][d as int]
}

/// `n` in decimal, without leading zeros.
pub open spec fn decimal(n: nat) -> Seq<char>
    decreases n,
{
    if n < 10 {
        seq![digit_char(n)]
    } else {
        decimal(n / 10) + seq![digit_char(n % 10)]
    }
}

/// The clause of the capture filter that admits traffic to each port, in order.
pub open spec fn port_clauses(ports: Seq<u16>) -> Seq<char>
    decreases ports.len(),
{
    if ports.len() == 0 {
        Seq::empty()
    } else {
        port_clauses(ports.drop_last()) + " or dst port "@ + decimal(ports.last() as nat)
    }
}

/// The capture filter: traffic not destined to loopback, or destined to one of
/// the inspected ports.
pub open spec fn filter_of(ports: Seq<u16>) -> Seq<char> {
    "not dst net 127.0.0.0/8"@ + port_clauses(ports)
}

fn digit_str(d: u16) -> (r: &'static str)
    requires
        d < 10,
    ensures
        r@ == seq![digit_char(d as nat)],
{
    proof {
        reveal_strlit("0");
        reveal_strlit("1");
        reveal_strlit("2");
        reveal_strlit("3");
        reveal_strlit("4");
        reveal_strlit("5");
        reveal_strlit("6");
        reveal_strlit("7");
        reveal_strlit("8");
        reveal_strlit("9");
    }
    match d {
        0 => "0",
        1 => "1",
        2 => "2",
        3 => "3",
        4 => "4",
        5 => "5",
        6 => "6",
        7 => "7",
        8 => "8",
        _ => "9",
    }
}

/// A port number in decimal.
pub fn decimal_string(n: u16) -> (r: String)
    ensures
        r@ == decimal(n as nat),
    decreases n,
{
    if n < 10 {
        digit_str(n).to_owned()
    } else {
        let mut s = decimal_string(n / 10);
        s.append(digit_str(n % 10));
        s
    }
}

/// The ports whose loopback traffic is still inspected: web, database and cache
/// services.
pub fn default_inspected_ports() -> (r: Vec<u16>)
    ensures
        r@ == seq![80u16, 443, 3000, 3306, 5432, 6379, 8080, 27017],
{
    let r = vec![80u16, 443, 3000, 3306, 5432, 6379, 8080, 27017];
    assert(r@ =~= seq![80u16, 443, 3000, 3306, 5432, 6379, 8080, 27017]);
    r
}

/// The BPF expression for the capture: everything not destined to loopback,
/// and loopback traffic to the inspected ports.
pub fn capture_filter(ports: &Vec<u16>) -> (r: String)
    ensures
        r@ == filter_of(ports@),
{
    let mut s = "not dst net 127.0.0.0/8".to_owned();
    let mut i: usize = 0;
    while i < ports.len()
        invariant
            i <= ports@.len(),
            s@ == "not dst net 127.0.0.0/8"@ + port_clauses(ports@.take(i as int)),
        decreases ports@.len() - i,
    {
        s.append(" or dst port ");
        let d = decimal_string(ports[i]);
        s.append(d.as_str());
        assert(ports@.take(i + 1).drop_last() =~= ports@.take(i as int));
        i += 1;
    }
    assert(ports@.take(ports@.len() as int) =~= ports@);
    s
}

} // verus!
