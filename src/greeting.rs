use vstd::prelude::*;
use vstd::string::StringExecFns;

verus! {

/// The fixed reply of the plain greeting.
pub open spec fn greet_text() -> Seq<char> {
    "Hello, world!"@
}

/// The reply that greets `name`.
pub open spec fn hello_text(name: Seq<char>) -> Seq<char> {
    "Hello, "@ + name + "!"@
}

/// The reply that echoes the identifier `id`.
pub open spec fn id_text(id: nat) -> Seq<char> {
    "Hello, id "@ + decimal(id) + "!"@
}

/// The character of the decimal digit `d`.
pub open spec fn digit_char(d: nat) -> char
    recommends
        d < 10,
{
    "0123456789"@[d as int]
}

/// The decimal writing of `n`: no sign, no leading zero, "0" for zero.
pub open spec fn decimal(n: nat) -> Seq<char>
    decreases n,
{
    if n < 10 {
        seq![digit_char(n)]
    } else {
        decimal(n / 10).push(digit_char(n % 10))
    }
}

fn digit_str(d: u32) -> (r: &'static str)
    requires
        d < 10,
    ensures
        r@ == seq![digit_char(d as nat)],
{
    proof {
        reveal_strlit("0123456789");
    }
    let r = match d {
        0 => "0",
        1 => "1",
        2 => "2",
        3 => "3",
        4 => "4",
        5 => "5",
        6 => "6",
        7 => "7",
        8 => "8",
        _ => "9",
    };
    proof {
        reveal_strlit("0");
        reveal_strlit("1");
        reveal_strlit("2");
        reveal_strlit("3");
        reveal_strlit("4");
        reveal_strlit("5");
        reveal_strlit("6");
        reveal_strlit("7");
        reveal_strlit("8");
        reveal_strlit("9");
        assert(r@ =~= seq![digit_char(d as nat)]);
    }
    r
}

/// Appends the decimal writing of `n` to `s`.
pub fn push_decimal(s: &mut String, n: u32)
    ensures
        final(s)@ == old(s)@ + decimal(n as nat),
    decreases n,
{
    if n >= 10 {
        push_decimal(s, n / 10);
    }
    s.append(digit_str(n % 10));
    proof {
        if n >= 10 {
            assert(old(s)@ + decimal(n as nat) =~= old(s)@ + decimal((n / 10) as nat) + seq![
                digit_char((n % 10) as nat),
            ]);
        } else {
            assert(decimal(n as nat) == seq![digit_char(n as nat)]);
        }
    }
}

/// The plain greeting, the same on every call.
pub fn greet() -> (r: String)
    ensures
        r@ == greet_text(),
{
    String::from_str("Hello, world!")
}

/// Greets `name` by name.
pub fn hello(name: &str) -> (r: String)
    ensures
        r@ == hello_text(name@),
{
    let mut r = String::from_str("Hello, ");
    r.append(name);
    r.append("!");
    r
}

/// Echoes the identifier `id` in a greeting.
pub fn get_user(id: u32) -> (r: String)
    ensures
        r@ == id_text(id as nat),
{
    let mut r = String::from_str("Hello, id ");
    push_decimal(&mut r, id);
    r.append("!");
    proof {
        assert(r@ =~= id_text(id as nat));
    }
    r
}

} // verus!
