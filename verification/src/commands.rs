use vstd::prelude::*;
use crate::text::{lowercase, lowercase_of, str_eq, trim_of, trimmed};

verus! {

/// Whether some command among the first `k` of `names` is called `name`.
pub open spec fn name_among(names: Seq<Seq<char>>, k: int, name: Seq<char>) -> bool {
    exists|j: int| 0 <= j < k && names[j] == name
}

/// The ids of the registered commands that repeat the name of an earlier
/// one, in registration order: those are the duplicates to delete.
pub open spec fn duplicate_ids_of(names: Seq<Seq<char>>, ids: Seq<u64>, k: int) -> Seq<u64>
    decreases k,
{
    if k <= 0 {
        Seq::empty()
    } else if name_among(names, k - 1, names[k - 1]) {
        duplicate_ids_of(names, ids, k - 1).push(ids[k - 1])
    } else {
        duplicate_ids_of(names, ids, k - 1)
    }
}

/// Whether a command called `name` is among the first `k` of `names`.
fn name_seen(names: &Vec<String>, k: usize, name: &str) -> (seen: bool)
    requires
        k <= names@.len(),
    ensures
        seen == name_among(names.deep_view(), k as int, name@),
{
    let ghost view = names.deep_view();
    let mut j: usize = 0;
    while j < k
        invariant
            view == names.deep_view(),
            k <= names@.len(),
            j <= k,
            forall|m: int| 0 <= m < j ==> view[m] != name@,
        decreases k - j,
    {
        assert(view[j as int] == names@[j as int]@);
        if str_eq(names[j].as_str(), name) {
            return true;
        }
        j = j + 1;
    }
    false
}

/// Finds the commands registered more than once: for the commands with
/// names `names` and ids `ids`, in order, the ids of those whose name an
/// earlier command already has.
pub fn find_duplicate_command_ids(names: &Vec<String>, ids: &Vec<u64>) -> (duplicates: Vec<u64>)
    requires
        names@.len() == ids@.len(),
    ensures
        duplicates@ == duplicate_ids_of(names.deep_view(), ids@, names@.len() as int),
{
    let ghost view = names.deep_view();
    let mut duplicates: Vec<u64> = Vec::new();
    let mut i: usize = 0;
    while i < names.len()
        invariant
            view == names.deep_view(),
            names@.len() == ids@.len(),
            i <= names@.len(),
            duplicates@ == duplicate_ids_of(view, ids@, i as int),
        decreases names@.len() - i,
    {
        assert(view[i as int] == names@[i as int]@);
        if name_seen(names, i, names[i].as_str()) {
            duplicates.push(ids[i]);
        }
        i = i + 1;
    }
    duplicates
}

proof fn lemma_duplicate_ids_membership(names: Seq<Seq<char>>, ids: Seq<u64>, k: int)
    requires
        names.len() == ids.len(),
        ids.no_duplicates(),
        0 <= k <= names.len(),
    ensures
        forall|i: int|
            0 <= i < names.len() ==> (duplicate_ids_of(names, ids, k).contains(#[trigger] ids[i])
                <==> (i < k && name_among(names, i, names[i]))),
    decreases k,
{
    if k > 0 {
        lemma_duplicate_ids_membership(names, ids, k - 1);
        let before = duplicate_ids_of(names, ids, k - 1);
        assert forall|i: int| 0 <= i < names.len() implies (duplicate_ids_of(
            names,
            ids,
            k,
        ).contains(#[trigger] ids[i]) <==> (i < k && name_among(names, i, names[i]))) by {
            if name_among(names, k - 1, names[k - 1]) {
                let after = before.push(ids[k - 1]);
                assert(duplicate_ids_of(names, ids, k) == after);
                if after.contains(ids[i]) && !before.contains(ids[i]) {
                    let m = choose|m: int| 0 <= m < after.len() && after[m] == ids[i];
                    assert(m == before.len());
                    assert(ids[k - 1] == ids[i]);
                }
                if i == k - 1 {
                    assert(after[before.len() as int] == ids[i]);
                }
                if before.contains(ids[i]) {
                    let m = choose|m: int| 0 <= m < before.len() && before[m] == ids[i];
                    assert(after[m] == ids[i]);
                }
            }
        }
    }
}

/// Deleting the commands whose ids `find_duplicate_command_ids` reports
/// deletes a command exactly when an earlier command has its name, so the
/// first command of every name stays and no name stays twice.  (Command ids
/// are unique.)
pub proof fn lemma_cleanup_keeps_one_command_per_name(names: Seq<Seq<char>>, ids: Seq<u64>)
    requires
        names.len() == ids.len(),
        ids.no_duplicates(),
    ensures
        forall|i: int|
            0 <= i < names.len() ==> (duplicate_ids_of(names, ids, names.len() as int).contains(
                #[trigger] ids[i],
            ) <==> name_among(names, i, names[i])),
        forall|i: int, j: int|
            0 <= i < names.len() && 0 <= j < names.len() && i != j && !duplicate_ids_of(
                names,
                ids,
                names.len() as int,
            ).contains(#[trigger] ids[i]) && !duplicate_ids_of(
                names,
                ids,
                names.len() as int,
            ).contains(#[trigger] ids[j]) ==> names[i] != names[j],
{
    let n = names.len() as int;
    let dups = duplicate_ids_of(names, ids, n);
    lemma_duplicate_ids_membership(names, ids, n);
    assert forall|i: int, j: int|
        0 <= i < names.len() && 0 <= j < names.len() && i != j && !dups.contains(
            #[trigger] ids[i],
        ) && !dups.contains(#[trigger] ids[j]) implies names[i] != names[j] by {
        if names[i] == names[j] {
            if i < j {
                assert(name_among(names, j, names[j]));
            } else {
                assert(name_among(names, i, names[i]));
            }
        }
    }
}

/// Indices of the commands of `names` that have no counterpart among the
/// names already registered, `existing`: those are the ones to register.
pub open spec fn missing_command_indices_of(existing: Seq<Seq<char>>, names: Seq<Seq<char>>, k: int) -> Seq<
    usize,
>
    decreases k,
{
    if k <= 0 {
        Seq::empty()
    } else if existing.contains(names[k - 1]) {
        missing_command_indices_of(existing, names, k - 1)
    } else {
        missing_command_indices_of(existing, names, k - 1).push((k - 1) as usize)
    }
}

/// Which of the commands named `names` are not yet registered under a name
/// in `existing`, by index and in order.
pub fn missing_command_indices(existing: &Vec<String>, names: &Vec<String>) -> (missing: Vec<usize>)
    ensures
        missing@ == missing_command_indices_of(
            existing.deep_view(),
            names.deep_view(),
            names@.len() as int,
        ),
{
    let ghost known = existing.deep_view();
    let ghost view = names.deep_view();
    let mut missing: Vec<usize> = Vec::new();
    let mut i: usize = 0;
    while i < names.len()
        invariant
            known == existing.deep_view(),
            view == names.deep_view(),
            i <= names@.len(),
            missing@ == missing_command_indices_of(known, view, i as int),
        decreases names@.len() - i,
    {
        assert(view[i as int] == names@[i as int]@);
        let registered = name_seen(existing, existing.len(), names[i].as_str());
        assert(registered == known.contains(view[i as int])) by {
            if known.contains(view[i as int]) {
                let j = choose|j: int| 0 <= j < known.len() && known[j] == view[i as int];
                assert(name_among(known, known.len() as int, view[i as int]));
            }
        }
        if !registered {
            missing.push(i);
        }
        i = i + 1;
    }
    missing
}

/// Registering the commands that `missing_command_indices` reports
/// registers exactly those not yet registered: a command is reported if and
/// only if its name is not among the existing ones, and nothing else is.
pub proof fn lemma_registration_completes_the_set(
    existing: Seq<Seq<char>>,
    names: Seq<Seq<char>>,
    k: int,
)
    requires
        0 <= k <= names.len(),
        names.len() <= usize::MAX,
    ensures
        forall|i: int|
            0 <= i < k ==> (missing_command_indices_of(existing, names, k).contains(i as usize)
                <==> !existing.contains(#[trigger] names[i])),
        forall|m: int|
            0 <= m < missing_command_indices_of(existing, names, k).len() ==> (
            #[trigger] missing_command_indices_of(existing, names, k)[m]) < k,
    decreases k,
{
    if k > 0 {
        lemma_registration_completes_the_set(existing, names, k - 1);
        let before = missing_command_indices_of(existing, names, k - 1);
        if !existing.contains(names[k - 1]) {
            let after = before.push((k - 1) as usize);
            assert(missing_command_indices_of(existing, names, k) == after);
            assert forall|i: int| 0 <= i < k implies (after.contains(i as usize)
                <==> !existing.contains(#[trigger] names[i])) by {
                if i == k - 1 {
                    assert(after[before.len() as int] == (k - 1) as usize);
                } else {
                    if after.contains(i as usize) {
                        let m = choose|m: int| 0 <= m < after.len() && after[m] == i as usize;
                        if m == before.len() {
                            assert(after[m] == (k - 1) as usize);
                        } else {
                            assert(before[m] == i as usize);
                        }
                    }
                    if before.contains(i as usize) {
                        let m = choose|m: int| 0 <= m < before.len() && before[m] == i as usize;
                        assert(after[m] == i as usize);
                    }
                }
            }
        } else {
            assert forall|i: int| 0 <= i < k implies (before.contains(i as usize)
                <==> !existing.contains(#[trigger] names[i])) by {
                if i == k - 1 && before.contains(i as usize) {
                    let m = choose|m: int| 0 <= m < before.len() && before[m] == i as usize;
                    assert(before[m] < k - 1);
                }
            }
        }
    }
}

/// A page of the casino guide.
#[derive(PartialEq, Eq, Structural, Clone, Copy, Debug)]
pub enum HelpTopic {
    Overview,
    SlotMachine,
    HighLow,
    EvenOdd,
}

/// The page asked for by a topic already lowercased and trimmed.
pub open spec fn help_topic_of(topic: Seq<char>) -> HelpTopic {
    if topic == "niquel"@ || topic == "níquel"@ || topic == "caça-níquel"@ {
        HelpTopic::SlotMachine
    } else if topic == "highlow"@ || topic == "hl"@ {
        HelpTopic::HighLow
    } else if topic == "poi"@ || topic == "par"@ || topic == "impar"@ || topic == "par ou ímpar"@ {
        HelpTopic::EvenOdd
    } else {
        HelpTopic::Overview
    }
}

/// Each topic name the guide offers opens its own page: the slot machine
/// under `niquel`, `níquel` and `caça-níquel`; HighLow under `highlow` and
/// `hl`; even-or-odd under `poi`, `par`, `impar` and `par ou ímpar`; and the
/// empty topic opens the overview.
pub proof fn lemma_advertised_topics_select_their_pages()
    ensures
        help_topic_of("niquel"@) == HelpTopic::SlotMachine,
        help_topic_of("níquel"@) == HelpTopic::SlotMachine,
        help_topic_of("caça-níquel"@) == HelpTopic::SlotMachine,
        help_topic_of("highlow"@) == HelpTopic::HighLow,
        help_topic_of("hl"@) == HelpTopic::HighLow,
        help_topic_of("poi"@) == HelpTopic::EvenOdd,
        help_topic_of("par"@) == HelpTopic::EvenOdd,
        help_topic_of("impar"@) == HelpTopic::EvenOdd,
        help_topic_of("par ou ímpar"@) == HelpTopic::EvenOdd,
        help_topic_of(Seq::<char>::empty()) == HelpTopic::Overview,
{
    reveal_strlit("niquel");
    reveal_strlit("níquel");
    reveal_strlit("caça-níquel");
    reveal_strlit("highlow");
    reveal_strlit("hl");
    reveal_strlit("poi");
    reveal_strlit("par");
    reveal_strlit("impar");
    reveal_strlit("par ou ímpar");
    assert("highlow"@[0] != "niquel"@[0] && "highlow"@[0] != "níquel"@[0] && "highlow"@[0]
        != "caça-níquel"@[0]);
    assert("hl"@[0] != "niquel"@[0] && "hl"@[0] != "níquel"@[0] && "hl"@[0] != "caça-níquel"@[0]);
    assert("niquel"@.len() > 0 && "níquel"@.len() > 0 && "caça-níquel"@.len() > 0);
    assert("highlow"@.len() > 0 && "hl"@.len() > 0);
    assert("poi"@.len() > 0 && "par"@.len() > 0 && "impar"@.len() > 0 && "par ou ímpar"@.len() > 0);
}

/// The page for a topic already lowercased and trimmed.
pub fn select_help_topic(topic: &str) -> (page: HelpTopic)
    ensures
        page == help_topic_of(topic@),
        (topic@ == "niquel"@ || topic@ == "níquel"@ || topic@ == "caça-níquel"@) ==> page
            == HelpTopic::SlotMachine,
        (topic@ == "highlow"@ || topic@ == "hl"@) ==> page == HelpTopic::HighLow,
        (topic@ == "poi"@ || topic@ == "par"@ || topic@ == "impar"@ || topic@ == "par ou ímpar"@)
            ==> page == HelpTopic::EvenOdd,
{
    proof {
        lemma_advertised_topics_select_their_pages();
    }
    if str_eq(topic, "niquel") || str_eq(topic, "níquel") || str_eq(topic, "caça-níquel") {
        HelpTopic::SlotMachine
    } else if str_eq(topic, "highlow") || str_eq(topic, "hl") {
        HelpTopic::HighLow
    } else if str_eq(topic, "poi") || str_eq(topic, "par") || str_eq(topic, "impar") || str_eq(
        topic,
        "par ou ímpar",
    ) {
        HelpTopic::EvenOdd
    } else {
        HelpTopic::Overview
    }
}

/// The page of the guide for the topic a player typed: lowercased, then
/// trimmed; no topic shows the overview.
pub fn help_topic(topico: Option<&str>) -> (page: HelpTopic)
    ensures
        page == match topico {
            Some(t) => help_topic_of(trim_of(lowercase_of(t@))),
            None => HelpTopic::Overview,
        },
{
    match topico {
        None => HelpTopic::Overview,
        Some(raw) => {
            let lowered = lowercase(raw);
            select_help_topic(trimmed(lowered.as_str()))
        },
    }
}

/// Whether the word typed confirms wiping the players, exactly `CONFIRMAR`.
pub fn is_clear_confirmed(confirmacao: &str) -> (confirmed: bool)
    ensures
        confirmed == (confirmacao@ == "CONFIRMAR"@),
{
    str_eq(confirmacao, "CONFIRMAR")
}

} // verus!
