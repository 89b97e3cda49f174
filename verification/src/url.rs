//! Query-URL builder for the metrics backend: the counter-increase
//! expression over the current cycle window, URL-encoded the way the
//! backend's query endpoint expects it.

use vstd::prelude::*;
use vstd::string::*;
use crate::calendar::{CivilTime, spec_seconds_since_cycle_start, seconds_since_cycle_start};

verus! {

/// The character for one decimal digit.
pub open spec fn spec_digit_char(d: int) -> char {
    if d == 0 {
        '0'
    } else if d == 1 {
        '1'
    } else if d == 2 {
        '2'
    } else if d == 3 {
        '3'
    } else if d == 4 {
        '4'
    } else if d == 5 {
        '5'
    } else if d == 6 {
        '6'
    } else if d == 7 {
        '7'
    } else if d == 8 {
        '8'
    } else {
        '9'
    }
}

/// The decimal digits of `n`, most significant first, no leading zeros.
pub open spec fn spec_dec_digits(n: int) -> Seq<char>
    decreases n,
{
    if n < 10 {
        seq![spec_digit_char(n)]
    } else {
        spec_dec_digits(n / 10).push(spec_digit_char(n % 10))
    }
}

/// One decimal digit as a string slice.
fn digit_str(d: u64) -> (r: &'static str)
    requires
        d <= 9,
    ensures
        r@ == seq![spec_digit_char(d as int)],
{
    if d == 0 {
        proof {
            reveal_strlit("0");
            assert("0"@ =~= seq![spec_digit_char(0)]);
        }
        "0"
    } else if d == 1 {
        proof {
            reveal_strlit("1");
            assert("1"@ =~= seq![spec_digit_char(1)]);
        }
        "1"
    } else if d == 2 {
        proof {
            reveal_strlit("2");
            assert("2"@ =~= seq![spec_digit_char(2)]);
        }
        "2"
    } else if d == 3 {
        proof {
            reveal_strlit("3");
            assert("3"@ =~= seq![spec_digit_char(3)]);
        }
        "3"
    } else if d == 4 {
        proof {
            reveal_strlit("4");
            assert("4"@ =~= seq![spec_digit_char(4)]);
        }
        "4"
    } else if d == 5 {
        proof {
            reveal_strlit("5");
            assert("5"@ =~= seq![spec_digit_char(5)]);
        }
        "5"
    } else if d == 6 {
        proof {
            reveal_strlit("6");
            assert("6"@ =~= seq![spec_digit_char(6)]);
        }
        "6"
    } else if d == 7 {
        proof {
            reveal_strlit("7");
            assert("7"@ =~= seq![spec_digit_char(7)]);
        }
        "7"
    } else if d == 8 {
        proof {
            reveal_strlit("8");
            assert("8"@ =~= seq![spec_digit_char(8)]);
        }
        "8"
    } else {
        proof {
            reveal_strlit("9");
            assert("9"@ =~= seq![spec_digit_char(9)]);
        }
        "9"
    }
}

/// Render an unsigned number in decimal.
pub fn u64_to_string(n: u64) -> (r: String)
    ensures
        r@ == spec_dec_digits(n as int),
    decreases n,
{
    if n < 10 {
        String::from_str(digit_str(n))
    } else {
        let mut s = u64_to_string(n / 10);
        s.append(digit_str(n % 10));
        proof {
            assert(s@ =~= spec_dec_digits(n as int));
        }
        s
    }
}

/// The exact query URL: the backend's query endpoint with a sum of the
/// increase of the receive and transmit byte counters for the instance
/// over the last `seconds` seconds ("%2B" is a URL-encoded plus).
pub open spec fn spec_generate_url(prometheus_url: Seq<char>, instance: Seq<char>, seconds: int) -> Seq<char> {
    prometheus_url + "/api/v1/query?query=sum (increase(node_network_receive_bytes_total{instance=\""@
        + instance + "\"}["@ + spec_dec_digits(seconds) + "s]) %2B increase(node_network_transmit_bytes_total{instance=\""@
        + instance + "\"}["@ + spec_dec_digits(seconds) + "s]))"@
}

/// Build the backend query URL for one instance, over the window since the
/// cycle reset most recently reached from `now`.
pub fn generate_url(prometheus_url: &String, reset_day: &u8, instance: &String, now: &CivilTime) -> (r:
    String)
    requires
        now.wf(),
        1 <= *reset_day <= 31,
    ensures
        r@ == spec_generate_url(
            prometheus_url@,
            instance@,
            spec_seconds_since_cycle_start(*now, *reset_day as int),
        ),
{
    let seconds = seconds_since_cycle_start(now, *reset_day);
    let secs = u64_to_string(seconds as u64);
    let mut url = prometheus_url.clone();
    url.append("/api/v1/query?query=sum (increase(node_network_receive_bytes_total{instance=\"");
    url.append(instance.as_str());
    url.append("\"}[");
    url.append(secs.as_str());
    url.append("s]) %2B increase(node_network_transmit_bytes_total{instance=\"");
    url.append(instance.as_str());
    url.append("\"}[");
    url.append(secs.as_str());
    url.append("s]))");
    proof {
        assert(url@ =~= spec_generate_url(
            prometheus_url@,
            instance@,
            spec_seconds_since_cycle_start(*now, *reset_day as int),
        ));
    }
    url
}

} // verus!
