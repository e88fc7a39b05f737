use vstd::prelude::*;
use vstd::string::*;

verus! {

/// The character that writes the digit `d`.
pub open spec fn digit_char(d: int) -> char {
    if d == 0 {
        '0'
    } else if d == 1 {
        '1'
    } else if d == 2 {
        '2'
    } else if d == 3 {
        '3'
    } else if d == 4 {
        '4'
    } else if d == 5 {
        '5'
    } else if d == 6 {
        '6'
    } else if d == 7 {
        '7'
    } else if d == 8 {
        '8'
    } else {
        '9'
    }
}

/// `n` written in decimal digits, without leading zeros.
pub open spec fn decimal(n: nat) -> Seq<char>
    decreases n,
{
    if n < 10 {
        seq![digit_char(n as int)]
    } else {
        decimal(n / 10).push(digit_char((n % 10) as int))
    }
}

/// The texts joined in order, with `separator` between neighbours.
pub open spec fn joined(texts: Seq<Seq<char>>, separator: Seq<char>) -> Seq<char>
    decreases texts.len(),
{
    if texts.len() == 0 {
        Seq::empty()
    } else if texts.len() == 1 {
        texts[0]
    } else {
        joined(texts.drop_last(), separator) + separator + texts.last()
    }
}

/// A limit as it is shown: `None`, or `Some(` the number `)`.
pub open spec fn limit_text(limit: Option<usize>) -> Seq<char> {
    match limit {
        None => "None"@,
        Some(n) => "Some("@ + decimal(n as nat) + ")"@,
    }
}

/// The digit `d` as a string.
fn digit_str(d: u64) -> (s: &'static str)
    requires
        d < 10,
    ensures
        s@ == seq![digit_char(d as int)],
{
    proof {
        reveal_strlit("0");
        reveal_strlit("1");
        reveal_strlit("2");
        reveal_strlit("3");
        reveal_strlit("4");
        reveal_strlit("5");
        reveal_strlit("6");
        reveal_strlit("7");
        reveal_strlit("8");
        reveal_strlit("9");
    }
    let s = if d == 0 {
        "0"
    } else if d == 1 {
        "1"
    } else if d == 2 {
        "2"
    } else if d == 3 {
        "3"
    } else if d == 4 {
        "4"
    } else if d == 5 {
        "5"
    } else if d == 6 {
        "6"
    } else if d == 7 {
        "7"
    } else if d == 8 {
        "8"
    } else {
        "9"
    };
    assert(s@ =~= seq![digit_char(d as int)]);
    s
}

/// Appends `n` in decimal digits.
pub fn push_decimal(out: &mut String, n: u64)
    ensures
        final(out)@ == old(out)@ + decimal(n as nat),
    decreases n,
{
    if n >= 10 {
        push_decimal(out, n / 10);
    }
    out.append(digit_str(n % 10));
    assert(out@ =~= old(out)@ + decimal(n as nat));
}

/// Appends a limit as it is shown.
pub fn push_limit(out: &mut String, limit: Option<usize>)
    ensures
        final(out)@ == old(out)@ + limit_text(limit),
{
    match limit {
        None => {
            out.append("None");
        },
        Some(n) => {
            out.append("Some(");
            push_decimal(out, n as u64);
            out.append(")");
            assert(out@ =~= old(out)@ + limit_text(limit));
        },
    }
}

/// Joining one text more appends it, after the separator unless it is
/// the first.
pub proof fn lemma_joined_step(texts: Seq<Seq<char>>, separator: Seq<char>, i: int)
    requires
        0 <= i < texts.len(),
    ensures
        joined(texts.take(i + 1), separator) == if i == 0 {
            texts[i]
        } else {
            joined(texts.take(i), separator) + separator + texts[i]
        },
{
    let longer = texts.take(i + 1);
    assert(longer.last() == texts[i]);
    assert(longer.drop_last() =~= texts.take(i));
    if i == 0 {
        assert(longer[0] == texts[0]);
    }
}

/// The text of each string of a list.
pub open spec fn texts_model(texts: Seq<String>) -> Seq<Seq<char>> {
    Seq::new(texts.len(), |i: int| texts[i]@)
}

/// The one-line summary of a scan: its limit, and the texts of its
/// filters, separated by a comma and a blank.
pub open spec fn description(limit: Option<usize>, filter_texts: Seq<Seq<char>>) -> Seq<char> {
    "RemoteTableExec: limit="@ + limit_text(limit) + ", filters=["@ + joined(
        filter_texts,
        ", "@,
    ) + "]"@
}

/// The one-line summary of a scan with this limit, whose filters are
/// shown by these texts, one for each filter.
pub fn describe(limit: Option<usize>, filter_texts: &Vec<String>) -> (text: String)
    ensures
        text@ == description(limit, texts_model(filter_texts@)),
{
    let mut out = String::new();
    out.append("RemoteTableExec: limit=");
    push_limit(&mut out, limit);
    out.append(", filters=[");
    let ghost head = out@;
    let ghost texts = texts_model(filter_texts@);
    proof {
        assert(head =~= "RemoteTableExec: limit="@ + limit_text(limit) + ", filters=["@);
        assert(texts.take(0) =~= Seq::empty());
        assert(out@ =~= head + joined(texts.take(0), ", "@));
    }
    let mut i: usize = 0;
    while i < filter_texts.len()
        invariant
            i <= filter_texts.len(),
            texts == texts_model(filter_texts@),
            out@ == head + joined(texts.take(i as int), ", "@),
        decreases filter_texts.len() - i,
    {
        if i > 0 {
            out.append(", ");
        }
        out.append(filter_texts[i].as_str());
        proof {
            lemma_joined_step(texts, ", "@, i as int);
            assert(out@ =~= head + joined(texts.take(i as int + 1), ", "@));
        }
        i += 1;
    }
    out.append("]");
    proof {
        assert(texts.take(i as int) =~= texts);
        assert(out@ =~= description(limit, texts_model(filter_texts@)));
    }
    out
}

} // verus!
