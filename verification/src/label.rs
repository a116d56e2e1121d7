//! The human-readable label of a handle.

use vstd::prelude::*;
use vstd::string::*;

verus! {

/// The name shown for a link: its own, or "unnamed" where it has none.
pub open spec fn shown_name(name: Option<String>) -> Seq<char> {
    match name {
        Some(name) => name@,
        None => "unnamed"@,
    }
}

/// The shown names, separated by a comma and a space.
pub open spec fn joined(names: Seq<Option<String>>) -> Seq<char>
    decreases names.len(),
{
    if names.len() == 0 {
        Seq::empty()
    } else if names.len() == 1 {
        shown_name(names[0])
    } else {
        joined(names.drop_last()) + ", "@ + shown_name(names.last())
    }
}

/// The label of a handle over one panel with the given name.
pub open spec fn device_label_text(name: Option<String>) -> Seq<char> {
    "LED matrix "@ + shown_name(name)
}

/// The label of a handle over a group of panels with the given names.
pub open spec fn collection_label_text(names: Seq<Option<String>>) -> Seq<char> {
    "LED matrices "@ + joined(names)
}

/// Appends the shown name to `out`.
fn append_name(out: &mut String, name: &Option<String>)
    ensures
        final(out)@ == old(out)@ + shown_name(*name),
{
    match name {
        Some(name) => out.append(name.as_str()),
        None => out.append("unnamed"),
    }
}

/// Renders the label of a handle over one panel.
pub fn device_label(name: &Option<String>) -> (text: String)
    ensures
        text@ == device_label_text(*name),
{
    let mut text = String::from_str("LED matrix ");
    append_name(&mut text, name);
    text
}

/// Renders the label of a handle over a group of panels.
pub fn collection_label(names: &Vec<Option<String>>) -> (text: String)
    ensures
        text@ == collection_label_text(names@),
{
    let mut text = String::from_str("LED matrices ");
    let n = names.len();
    let mut i: usize = 0;
    assert(names@.take(0) =~= Seq::<Option<String>>::empty());
    assert(text@ =~= collection_label_text(names@.take(0)));
    while i < n
        invariant
            i <= n,
            n == names.len(),
            text@ == collection_label_text(names@.take(i as int)),
        decreases n - i,
    {
        let ghost shorter = names@.take(i as int);
        let ghost longer = names@.take(i + 1);
        assert(longer.drop_last() =~= shorter);
        assert(longer.last() == names@[i as int]);
        if i > 0 {
            text.append(", ");
        }
        append_name(&mut text, &names[i]);
        assert(text@ =~= collection_label_text(longer));
        i += 1;
    }
    assert(names@.take(n as int) =~= names@);
    text
}

} // verus!
