//! The histories as they are kept, and the operations on them.

use vstd::prelude::*;
use crate::assoc::{lemma_as_map_contains};
use crate::repr::{
    AllTransactions,
    Lines,
    find_account,
    find_line,
    history_map,
    history_pairs,
    history_wf,
    lemma_history_at,
    lemma_history_lacks,
    lemma_history_push,
    lemma_history_update,
};
use crate::state::{
    has_match,
    histories,
    history_of,
    is_first_match,
    is_history_listing,
    joined,
    lists_history,
    with_memo,
};
use crate::types::{
    HistoricalTransaction,
    ImportedTransaction,
    TransactionId,
    memo_view,
    views,
};

verus! {

/// The names of the accounts that have a history, in the order in which the
/// histories are kept.
pub(crate) open spec fn account_names(buckets: Seq<(String, Lines)>) -> Seq<
    Seq<char>,
> {
    buckets.map_values(|b: (String, Lines)| b.0@)
}

/// The names are those of the accounts that have a history, each once.
pub(crate) proof fn lemma_account_names(buckets: Seq<(String, Lines)>)
    requires
        history_wf(buckets),
    ensures
        account_names(buckets).no_duplicates(),
        forall|account: Seq<char>|
            history_map(buckets).contains_key(account) <==> account_names(buckets).contains(
                account,
            ),
{
    let names = account_names(buckets);
    let pairs = history_pairs(buckets);
    assert forall|i: int, j: int|
        0 <= i < names.len() && 0 <= j < names.len() && i != j implies names[i] != names[j] by {
        if i < j {
            assert(pairs[i].0 != pairs[j].0);
        } else {
            assert(pairs[j].0 != pairs[i].0);
        }
    }
    assert forall|account: Seq<char>|
        history_map(buckets).contains_key(account) <==> names.contains(account) by {
        lemma_as_map_contains(pairs, account);
        if names.contains(account) {
            let i = choose|i: int| 0 <= i < names.len() && names[i] == account;
            assert(pairs[i].0 == account);
        }
        if history_map(buckets).contains_key(account) {
            let i = choose|i: int| 0 <= i < pairs.len() && (#[trigger] pairs[i]).0 == account;
            assert(names[i] == account);
        }
    }
}

/// The histories of the first `n` accounts, one after the other, are what
/// `joined` makes of their names.
pub(crate) proof fn lemma_joined_step(buckets: Seq<(String, Lines)>, n: int)
    requires
        history_wf(buckets),
        0 <= n < buckets.len(),
    ensures
        joined(account_names(buckets).take(n + 1), history_map(buckets)) == joined(
            account_names(buckets).take(n),
            history_map(buckets),
        ) + views(buckets[n].1@),
{
    let names = account_names(buckets);
    assert(names.take(n + 1).drop_last() =~= names.take(n));
    lemma_history_at(buckets, n);
}

/// A copy of the lines of a history.
pub(crate) fn copy_lines(lines: &Lines) -> (copy: Lines)
    ensures
        views(copy@) == views(lines@),
{
    let mut copy: Lines = Vec::new();
    let mut i: usize = 0;
    while i < lines.len()
        invariant
            i <= lines.len(),
            views(copy@) == views(lines@).take(i as int),
        decreases lines.len() - i,
    {
        let ghost done = views(copy@);
        copy.push(lines[i].clone());
        proof {
            assert(views(copy@) =~= done.push(views(lines@)[i as int]));
            assert(views(lines@).take(i + 1) =~= done.push(views(lines@)[i as int]));
        }
        i += 1;
    }
    proof {
        assert(views(lines@).take(lines.len() as int) =~= views(lines@));
    }
    copy
}

/// Sets the history of an account, replacing the one it has if it has one.
pub(crate) fn put_history(
    buckets: &mut AllTransactions,
    account: String,
    lines: Lines,
)
    requires
        history_wf(old(buckets)@),
    ensures
        history_wf(final(buckets)@),
        history_map(final(buckets)@) == history_map(old(buckets)@).insert(
            account@,
            views(lines@),
        ),
{
    let ghost before = buckets@;
    match find_account(buckets, &account) {
        Some(i) => {
            buckets[i] = (account, lines);
            proof {
                assert(buckets@ =~= before.update(i as int, buckets@[i as int]));
                lemma_history_update(before, i as int, buckets@[i as int]);
            }
        },
        None => {
            buckets.push((account, lines));
            proof {
                lemma_history_push(before, buckets@[before.len() as int]);
            }
        },
    }
}

/// The index of the account's history. An account without history gets an
/// empty one.
pub(crate) fn history_index(all: &mut AllTransactions, account: &String) -> (h: usize)
    requires
        history_wf(old(all)@),
    ensures
        history_wf(final(all)@),
        h < final(all)@.len(),
        final(all)@[h as int].0@ == account@,
        views(final(all)@[h as int].1@) == history_of(history_map(old(all)@), account@),
        history_map(final(all)@) == history_map(old(all)@).insert(
            account@,
            history_of(history_map(old(all)@), account@),
        ),
{
    let ghost before = all@;
    match find_account(all, account) {
        Some(h) => {
            proof {
                lemma_history_at(before, h as int);
                assert(history_map(before) =~= history_map(before).insert(
                    account@,
                    history_of(history_map(before), account@),
                ));
            }
            h
        },
        None => {
            proof {
                lemma_history_lacks(before, account@);
            }
            let fresh: Lines = Vec::new();
            assert(views(fresh@) =~= Seq::empty());
            all.push((account.clone(), fresh));
            proof {
                lemma_history_push(before, all@[before.len() as int]);
                lemma_history_at(all@, before.len() as int);
            }
            all.len() - 1
        },
    }
}

/// Adds one line to the end of the account's history.
pub(crate) fn add_line(all: &mut AllTransactions, account: &String, line: HistoricalTransaction)
    requires
        history_wf(old(all)@),
    ensures
        history_wf(final(all)@),
        history_map(final(all)@) == history_map(old(all)@).insert(
            account@,
            history_of(history_map(old(all)@), account@).push(line@),
        ),
{
    let h = history_index(all, account);
    let ghost opened = all@;
    all[h].1.push(line);
    proof {
        assert(all@ =~= opened.update(h as int, all@[h as int]));
        lemma_history_update(opened, h as int, all@[h as int]);
        assert(views(all@[h as int].1@) =~= views(opened[h as int].1@).push(line@));
        assert(history_map(all@) =~= history_map(old(all)@).insert(
            account@,
            history_of(history_map(old(all)@), account@).push(line@),
        ));
    }
}

/// Adds the lines of a batch to the end of the account's history, in order.
pub(crate) fn import_lines(
    all: &mut AllTransactions,
    account: &String,
    records: &Vec<ImportedTransaction>,
)
    requires
        history_wf(old(all)@),
    ensures
        history_wf(final(all)@),
        history_map(final(all)@) == history_map(old(all)@).insert(
            account@,
            history_of(history_map(old(all)@), account@) + histories(views(records@)),
        ),
{
    let ghost rs = views(records@);
    let ghost before = history_of(history_map(all@), account@);
    let n = records.len();
    let h = history_index(all, account);
    let ghost opened = all@;
    let mut k: usize = 0;
    proof {
        assert(views(all@[h as int].1@) =~= before + histories(rs.take(0)));
    }
    while k < n
        invariant
            k <= n,
            n == records.len(),
            rs == views(records@),
            h < opened.len(),
            all@.len() == opened.len(),
            forall|j: int| 0 <= j < opened.len() && j != h ==> all@[j] == opened[j],
            all@[h as int].0 == opened[h as int].0,
            views(all@[h as int].1@) == before + histories(rs.take(k as int)),
        decreases n - k,
    {
        let ghost lines = views(all@[h as int].1@);
        all[h].1.push(records[k].2.clone());
        proof {
            assert(histories(rs.take(k + 1)) =~= histories(rs.take(k as int)).push(rs[k as int].2));
            assert(views(all@[h as int].1@) =~= lines.push(rs[k as int].2));
        }
        k += 1;
    }
    proof {
        assert(rs.take(n as int) =~= rs);
        assert(all@ =~= opened.update(h as int, all@[h as int]));
        lemma_history_update(opened, h as int, all@[h as int]);
        assert(history_map(all@) =~= history_map(old(all)@).insert(
            account@,
            before + histories(rs),
        ));
    }
}

/// Where the memo of a transaction is kept: the index of the account's
/// history and, in it, of the first line about the transaction. The error
/// says whether the account has a history at all.
pub(crate) fn memo_place(all: &AllTransactions, account: &String, id: &TransactionId) -> (r: Result<
    (usize, usize),
    bool,
>)
    requires
        history_wf(all@),
    ensures
        match r {
            Ok(place) => {
                &&& place.0 < all@.len()
                &&& all@[place.0 as int].0@ == account@
                &&& history_map(all@).contains_key(account@)
                &&& history_map(all@)[account@] == views(all@[place.0 as int].1@)
                &&& is_first_match(history_map(all@)[account@], id@, place.1 as int)
            },
            Err(known) => {
                &&& known == history_map(all@).contains_key(account@)
                &&& known ==> !has_match(history_map(all@)[account@], id@)
            },
        },
{
    match find_account(all, account) {
        None => {
            proof {
                lemma_history_lacks(all@, account@);
            }
            Err(false)
        },
        Some(h) => {
            proof {
                lemma_history_at(all@, h as int);
            }
            match find_line(&all[h].1, id) {
                None => Err(true),
                Some(i) => Ok((h, i)),
            }
        },
    }
}

/// Replaces the memo of line `i` of history `h`.
pub(crate) fn set_memo(all: &mut AllTransactions, h: usize, i: usize, memo: Option<String>)
    requires
        history_wf(old(all)@),
        h < old(all)@.len(),
        i < old(all)@[h as int].1@.len(),
    ensures
        history_wf(final(all)@),
        history_map(final(all)@) == history_map(old(all)@).insert(
            old(all)@[h as int].0@,
            views(old(all)@[h as int].1@).update(
                i as int,
                with_memo(views(old(all)@[h as int].1@)[i as int], memo_view(memo)),
            ),
        ),
{
    let ghost before = all@;
    let ghost lines = views(before[h as int].1@);
    all[h].1[i].memo = memo;
    proof {
        assert(all@ =~= before.update(h as int, all@[h as int]));
        lemma_history_update(before, h as int, all@[h as int]);
        assert(views(all@[h as int].1@) =~= lines.update(
            i as int,
            with_memo(lines[i as int], memo_view(memo)),
        ));
    }
}

/// The histories of all accounts, one after the other.
pub(crate) fn list_history(all: &AllTransactions) -> (listing: Lines)
    requires
        history_wf(all@),
    ensures
        lists_history(views(listing@), history_map(all@)),
{
    let ghost names = account_names(all@);
    let ghost map = history_map(all@);
    let mut listing: Lines = Vec::new();
    let mut b: usize = 0;
    proof {
        assert(views(listing@) =~= joined(names.take(0), map));
    }
    while b < all.len()
        invariant
            b <= all.len(),
            history_wf(all@),
            names == account_names(all@),
            map == history_map(all@),
            views(listing@) == joined(names.take(b as int), map),
        decreases all.len() - b,
    {
        let ghost lines = views(all@[b as int].1@);
        let ghost before = joined(names.take(b as int), map);
        let mut e: usize = 0;
        proof {
            assert(views(listing@) =~= before + lines.take(0));
        }
        while e < all[b].1.len()
            invariant
                b < all.len(),
                e <= all@[b as int].1.len(),
                lines == views(all@[b as int].1@),
                views(listing@) == before + lines.take(e as int),
            decreases all@[b as int].1.len() - e,
        {
            let ghost done = views(listing@);
            listing.push(all[b].1[e].clone());
            proof {
                assert(views(listing@) =~= done.push(lines[e as int]));
                assert(lines.take(e + 1) =~= lines.take(e as int).push(lines[e as int]));
                assert(views(listing@) =~= before + lines.take(e + 1));
            }
            e += 1;
        }
        proof {
            assert(lines.take(lines.len() as int) =~= lines);
            lemma_joined_step(all@, b as int);
        }
        b += 1;
    }
    proof {
        assert(names.take(names.len() as int) =~= names);
        lemma_account_names(all@);
        assert(is_history_listing(views(listing@), names, map));
    }
    listing
}

/// A copy of the histories.
pub(crate) fn copy_all(all: &AllTransactions) -> (copy: AllTransactions)
    requires
        history_wf(all@),
    ensures
        history_wf(copy@),
        history_map(copy@) == history_map(all@),
{
    let mut copy: AllTransactions = Vec::new();
    let mut b: usize = 0;
    proof {
        assert(history_pairs(copy@) =~= history_pairs(all@).take(0));
    }
    while b < all.len()
        invariant
            b <= all.len(),
            history_pairs(copy@) == history_pairs(all@).take(b as int),
        decreases all.len() - b,
    {
        let ghost done = history_pairs(copy@);
        let lines = copy_lines(&all[b].1);
        copy.push((all[b].0.clone(), lines));
        proof {
            assert(history_pairs(copy@) =~= done.push(history_pairs(all@)[b as int]));
            assert(history_pairs(all@).take(b + 1) =~= done.push(history_pairs(all@)[b as int]));
        }
        b += 1;
    }
    proof {
        assert(history_pairs(all@).take(b as int) =~= history_pairs(all@));
    }
    copy
}

/// The histories that loaded data stands for, with one history for an
/// account: of the histories of one account, the last stays.
pub(crate) fn unique_all(loaded: &AllTransactions) -> (all: AllTransactions)
    ensures
        history_wf(all@),
        history_map(all@) == history_map(loaded@),
{
    let mut all: AllTransactions = Vec::new();
    let mut b: usize = 0;
    proof {
        assert(history_pairs(all@) =~= history_pairs(loaded@.take(0)));
    }
    while b < loaded.len()
        invariant
            b <= loaded.len(),
            history_wf(all@),
            history_map(all@) == history_map(loaded@.take(b as int)),
        decreases loaded.len() - b,
    {
        let lines = copy_lines(&loaded[b].1);
        put_history(&mut all, loaded[b].0.clone(), lines);
        proof {
            assert(history_pairs(loaded@.take(b + 1)).drop_last() =~= history_pairs(
                loaded@.take(b as int),
            ));
        }
        b += 1;
    }
    proof {
        assert(loaded@.take(b as int) =~= loaded@);
    }
    all
}

} // verus!
