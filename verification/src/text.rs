//! The short texts that clients and sockets see: decimal numbers, event identifiers and the
//! address that the event server listens on.

use vstd::prelude::*;

verus! {

/// The character of a decimal digit.
pub open spec fn digit_char(d: nat) -> char {
    if d == 0 {
        '0'
    } else if d == 1 {
        '1'
    } else if d == 2 {
        '2'
    } else if d == 3 {
        '3'
    } else if d == 4 {
        '4'
    } else if d == 5 {
        '5'
    } else if d == 6 {
        '6'
    } else if d == 7 {
        '7'
    } else if d == 8 {
        '8'
    } else {
        '9'
    }
}

/// `n` written in decimal, without leading zeros.
pub open spec fn decimal(n: nat) -> Seq<char>
    decreases n,
{
    if n < 10 {
        seq![digit_char(n)]
    } else {
        decimal(n / 10).push(digit_char(n % 10))
    }
}

fn digit_text(d: u32) -> (text: &'static str)
    requires
        d < 10,
    ensures
        text@ == seq![digit_char(d as nat)],
{
    proof {
        reveal_strlit("0");
        reveal_strlit("1");
        reveal_strlit("2");
        reveal_strlit("3");
        reveal_strlit("4");
        reveal_strlit("5");
        reveal_strlit("6");
        reveal_strlit("7");
        reveal_strlit("8");
        reveal_strlit("9");
    }
    if d == 0 {
        "0"
    } else if d == 1 {
        "1"
    } else if d == 2 {
        "2"
    } else if d == 3 {
        "3"
    } else if d == 4 {
        "4"
    } else if d == 5 {
        "5"
    } else if d == 6 {
        "6"
    } else if d == 7 {
        "7"
    } else if d == 8 {
        "8"
    } else {
        "9"
    }
}

/// Appends `n` in decimal to `text`.
pub fn push_decimal(text: &mut String, n: u32)
    ensures
        final(text)@ == old(text)@ + decimal(n as nat),
    decreases n,
{
    if n >= 10 {
        push_decimal(text, n / 10);
    }
    text.append(digit_text(n % 10));
}

/// The identifier of the event for one block of one parachain: `{para_id}-{block_number}`.
pub open spec fn event_id_text(para_id: nat, block_number: nat) -> Seq<char> {
    decimal(para_id) + seq!['-'] + decimal(block_number)
}

/// Writes the identifier of the event for one block of one parachain.
pub fn event_id(para_id: u32, block_number: u32) -> (id: String)
    ensures
        id@ == event_id_text(para_id as nat, block_number as nat),
{
    proof {
        reveal_strlit("-");
    }
    let mut id = String::new();
    push_decimal(&mut id, para_id);
    id.append("-");
    push_decimal(&mut id, block_number);
    assert(id@ =~= event_id_text(para_id as nat, block_number as nat));
    id
}

/// The text that stands for a setting: its own where it is set, else the default.
pub open spec fn setting_or(setting: Option<String>, default: Seq<char>) -> Seq<char> {
    match setting {
        Some(text) => text@,
        None => default,
    }
}

/// The `ip:port` text that the event server binds to. An unset address is the loopback
/// address, an unset port is 9001.
pub fn server_address(ip: Option<String>, port: Option<String>) -> (address: String)
    ensures
        address@ == setting_or(ip, "127.0.0.1"@) + ":"@ + setting_or(port, "9001"@),
        match (ip, port) {
            (Some(own_ip), Some(own_port)) => address@ == own_ip@ + ":"@ + own_port@,
            (Some(own_ip), None) => address@ == own_ip@ + ":"@ + "9001"@,
            (None, Some(own_port)) => address@ == "127.0.0.1"@ + ":"@ + own_port@,
            (None, None) => address@ == "127.0.0.1"@ + ":"@ + "9001"@,
        },
{
    let mut address = match ip {
        Some(text) => text,
        None => "127.0.0.1".to_string(),
    };
    address.append(":");
    match port {
        Some(text) => address.append(text.as_str()),
        None => address.append("9001"),
    }
    address
}

/// The number that a text of decimal digits is read as.
pub open spec fn value_of(text: Seq<char>) -> int
    decreases text.len(),
{
    if text.len() == 0 {
        0
    } else {
        10 * value_of(text.drop_last()) + (text.last() as int - '0' as int)
    }
}

/// Whether a text is made of decimal digits, at least one.
pub open spec fn all_digits(text: Seq<char>) -> bool {
    &&& text.len() > 0
    &&& forall|i: int| 0 <= i < text.len() ==> '0' as int <= #[trigger] text[i] as int <= '9' as int
}

/// A number that is written down is read back: its text is made of digits, has no leading zero
/// unless it is the one digit, and reads as the number itself.
pub proof fn lemma_decimal_reads_back(n: nat)
    ensures
        all_digits(decimal(n)),
        decimal(n).len() > 1 ==> decimal(n)[0] != '0',
        value_of(decimal(n)) == n,
    decreases n,
{
    if n < 10 {
        assert(decimal(n).drop_last() =~= Seq::<char>::empty());
        assert(value_of(decimal(n).drop_last()) == 0);
        assert(decimal(n).last() == digit_char(n));
    } else {
        lemma_decimal_reads_back(n / 10);
        assert(decimal(n).drop_last() =~= decimal(n / 10));
        assert(decimal(n).last() == digit_char(n % 10));
        assert(decimal(n)[0] == decimal(n / 10)[0]);
        if decimal(n / 10).len() == 1 {
            assert(decimal(n / 10).drop_last() =~= Seq::<char>::empty());
            assert(value_of(decimal(n / 10).drop_last()) == 0);
            assert(value_of(decimal(n / 10)) == decimal(n / 10)[0] as int - '0' as int);
        }
    }
}

/// An event identifier is two numbers with a dash between them: before the dash stands the
/// parachain, after it the block, whichever they are.
pub proof fn lemma_event_id_reads_back(para_id: nat, block_number: nat)
    ensures
        exists|dash: int|
            #![trigger event_id_text(para_id, block_number)[dash]]
            {
                let id = event_id_text(para_id, block_number);
                &&& 0 < dash < id.len() - 1
                &&& id[dash] == '-'
                &&& all_digits(id.subrange(0, dash))
                &&& all_digits(id.subrange(dash + 1, id.len() as int))
                &&& value_of(id.subrange(0, dash)) == para_id
                &&& value_of(id.subrange(dash + 1, id.len() as int)) == block_number
            },
{
    let id = event_id_text(para_id, block_number);
    let dash = decimal(para_id).len() as int;
    lemma_decimal_reads_back(para_id);
    lemma_decimal_reads_back(block_number);
    assert(id.subrange(0, dash) =~= decimal(para_id));
    assert(id.subrange(dash + 1, id.len() as int) =~= decimal(block_number));
    assert(id[dash] == '-');
}

proof fn lemma_digit_injective(a: nat, b: nat)
    requires
        a < 10,
        b < 10,
        digit_char(a) == digit_char(b),
    ensures
        a == b,
{
}

proof fn lemma_decimal_chars(n: nat)
    ensures
        decimal(n).len() > 0,
        n >= 10 ==> decimal(n).len() > 1,
        forall|i: int| 0 <= i < decimal(n).len() ==> decimal(n)[i] != '-',
    decreases n,
{
    if n >= 10 {
        lemma_decimal_chars(n / 10);
    }
}

/// Different numbers have different decimal texts.
pub proof fn lemma_decimal_injective(a: nat, b: nat)
    requires
        decimal(a) == decimal(b),
    ensures
        a == b,
    decreases a,
{
    lemma_decimal_chars(a);
    lemma_decimal_chars(b);
    if a >= 10 && b >= 10 {
        assert(decimal(a).drop_last() =~= decimal(a / 10));
        assert(decimal(b).drop_last() =~= decimal(b / 10));
        lemma_decimal_injective(a / 10, b / 10);
        assert(decimal(a).last() == digit_char(a % 10));
        assert(decimal(b).last() == digit_char(b % 10));
        lemma_digit_injective(a % 10, b % 10);
    } else if a < 10 && b < 10 {
        assert(decimal(a)[0] == digit_char(a));
        assert(decimal(b)[0] == digit_char(b));
        lemma_digit_injective(a, b);
    } else if a < 10 {
        assert(decimal(a).len() == 1);
    } else {
        assert(decimal(b).len() == 1);
    }
}

/// An event identifier is unique: two events share one only where they are about the same
/// block of the same parachain.
pub proof fn lemma_event_id_unique(para_a: nat, block_a: nat, para_b: nat, block_b: nat)
    requires
        event_id_text(para_a, block_a) == event_id_text(para_b, block_b),
    ensures
        para_a == para_b,
        block_a == block_b,
{
    let a = event_id_text(para_a, block_a);
    let b = event_id_text(para_b, block_b);
    let m = decimal(para_a).len() as int;
    let n = decimal(para_b).len() as int;
    lemma_decimal_chars(para_a);
    lemma_decimal_chars(para_b);
    assert(a[m] == '-');
    assert(b[n] == '-');
    if m < n {
        assert(b[m] == decimal(para_b)[m]);
    }
    if n < m {
        assert(a[n] == decimal(para_a)[n]);
    }
    assert(a.subrange(0, m) =~= decimal(para_a));
    assert(b.subrange(0, n) =~= decimal(para_b));
    assert(a.subrange(m + 1, a.len() as int) =~= decimal(block_a));
    assert(b.subrange(n + 1, b.len() as int) =~= decimal(block_b));
    lemma_decimal_injective(para_a, para_b);
    lemma_decimal_injective(block_a, block_b);
}

} // verus!
