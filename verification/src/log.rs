//! The log of warnings: what was found wanting on the way and mended
//! locally. A log is only ever added to.

use vstd::prelude::*;

verus! {

/// The values of the entries of a log.
pub open spec fn log_view(log: Seq<String>) -> Seq<Seq<char>> {
    log.map_values(|m: String| m@)
}

/// Whether the log `new` is the log `old` with nothing taken out and
/// nothing changed: `old`, and what was added behind it.
pub open spec fn extends(new: Seq<Seq<char>>, old: Seq<Seq<char>>) -> bool {
    old.len() <= new.len() && new.subrange(0, old.len() as int) == old
}

/// A log extends itself.
pub proof fn extends_itself(log: Seq<Seq<char>>)
    ensures
        extends(log, log),
{
    assert(log.subrange(0, log.len() as int) =~= log);
}

/// A log with one more entry extends the log.
pub proof fn extends_by_one(log: Seq<Seq<char>>, entry: Seq<char>)
    ensures
        extends(log.push(entry), log),
{
    assert(log.push(entry).subrange(0, log.len() as int) =~= log);
}

/// What extends a log that extends another extends the other.
pub proof fn extends_on(newest: Seq<Seq<char>>, new: Seq<Seq<char>>, old: Seq<Seq<char>>)
    requires
        extends(newest, new),
        extends(new, old),
    ensures
        extends(newest, old),
{
    assert(newest.subrange(0, old.len() as int) =~= newest.subrange(0, new.len() as int).subrange(
        0,
        old.len() as int,
    ));
}

/// Adds an entry to a log.
pub fn push_log(log: &mut Vec<String>, m: String)
    ensures
        log_view(final(log)@) == log_view(old(log)@).push(m@),
{
    log.push(m);
    assert(log_view(log@) =~= log_view(old(log)@).push(m@));
}

/// Adds a text as an entry to a log.
pub fn push_warning(log: &mut Vec<String>, warning: &str)
    ensures
        log_view(final(log)@) == log_view(old(log)@).push(warning@),
{
    push_log(log, String::from_str(warning));
}

/// Adds the entries of `more` to a log.
pub fn append_log(log: &mut Vec<String>, more: Vec<String>)
    ensures
        log_view(final(log)@) == log_view(old(log)@) + log_view(more@),
{
    let mut more = more;
    let ghost added = log_view(more@);
    log.append(&mut more);
    assert(log_view(log@) =~= log_view(old(log)@) + added);
}

} // verus!
