//! Commands of a key-value shard and what serving them does.

use vstd::prelude::*;

use crate::kv::store::{lists_keys, lookup, text_of, KvService};
use crate::service::Request;
use crate::strings::texts;

verus! {

/// A command for a key-value shard.
pub enum KvCommand {
    /// Reads a value.
    Get { key: String },
    /// Inserts or replaces a value.
    Put { key: String, value: String },
    /// Replaces a value where the present one is as expected.
    CompareAndPut { key: String, expected: Option<String>, value: String },
    /// Reads a value, after inserting it where there is none.
    GetOrPut { key: String, value: String },
    /// Removes a key.
    Delete { key: String },
    /// Counts the keys.
    Len,
    /// Lists the keys.
    Keys,
    /// Ends the shard.
    Stop,
}

/// The reply of a key-value shard.
pub enum KvResponse {
    /// The value of a key, to a get or a delete.
    Value(Option<String>),
    /// The command was carried out, to a put or a stop.
    Done,
    /// Whether the value was replaced, to a compare-and-put.
    Replaced(bool),
    /// The value that the key now has, to a get-or-put.
    Stored(String),
    /// Number of keys.
    Len(usize),
    /// The keys, in order.
    Keys(Vec<String>),
}

/// What a shard holds after a command.
pub open spec fn after(map: Map<Seq<char>, Seq<char>>, command: KvCommand) -> Map<
    Seq<char>,
    Seq<char>,
> {
    match command {
        KvCommand::Put { key, value } => map.insert(key@, value@),
        KvCommand::CompareAndPut { key, expected, value } => if lookup(map, key@) == text_of(
            expected,
        ) {
            map.insert(key@, value@)
        } else {
            map
        },
        KvCommand::GetOrPut { key, value } => if map.contains_key(key@) {
            map
        } else {
            map.insert(key@, value@)
        },
        KvCommand::Delete { key } => map.remove(key@),
        _ => map,
    }
}

/// Whether a response answers a command to a shard that holds `map`.
pub open spec fn answers(
    map: Map<Seq<char>, Seq<char>>,
    command: KvCommand,
    response: KvResponse,
) -> bool {
    match command {
        KvCommand::Get { key } => response matches KvResponse::Value(value) && text_of(value)
            == lookup(map, key@),
        KvCommand::Put { key, value } => response is Done,
        KvCommand::CompareAndPut { key, expected, value } => response matches KvResponse::Replaced(
            replaced,
        ) && replaced == (lookup(map, key@) == text_of(expected)),
        KvCommand::GetOrPut { key, value } => response matches KvResponse::Stored(stored)
            && Some(stored@) == lookup(after(map, command), key@),
        KvCommand::Delete { key } => response matches KvResponse::Value(value) && text_of(value)
            == lookup(map, key@),
        KvCommand::Len => response matches KvResponse::Len(len) && len == map.len()
            && map.dom().finite(),
        KvCommand::Keys => response matches KvResponse::Keys(keys) && lists_keys(texts(keys@), map),
        KvCommand::Stop => response is Done,
    }
}

impl KvService {
    /// Serves a command.
    pub fn apply(&mut self, command: KvCommand) -> (response: KvResponse)
        requires
            old(self).wf(),
        ensures
            final(self).wf(),
            final(self)@ == after(old(self)@, command),
            answers(old(self)@, command, response),
            command is CompareAndPut ==> response is Replaced && (response->Replaced_0 <==> match (
            command->expected) {
                Some(text) => old(self)@.contains_key(command->CompareAndPut_key@) && old(
                    self,
                )@[command->CompareAndPut_key@] == text@,
                None => !old(self)@.contains_key(command->CompareAndPut_key@),
            }),
            final(self)@ != old(self)@ && command is CompareAndPut ==> response
                == KvResponse::Replaced(true),
    {
        match command {
            KvCommand::Get { key } => KvResponse::Value(self.get(key)),
            KvCommand::Put { key, value } => {
                self.put(key, value);
                KvResponse::Done
            },
            KvCommand::CompareAndPut { key, expected, value } => KvResponse::Replaced(
                self.compare_and_put(key, expected, value),
            ),
            KvCommand::GetOrPut { key, value } => KvResponse::Stored(self.get_or_put(key, value)),
            KvCommand::Delete { key } => KvResponse::Value(self.delete(key)),
            KvCommand::Len => KvResponse::Len(self.len()),
            KvCommand::Keys => KvResponse::Keys(self.keys()),
            KvCommand::Stop => KvResponse::Done,
        }
    }
}

/// What a shard holds after several commands.
pub open spec fn after_all(map: Map<Seq<char>, Seq<char>>, commands: Seq<KvCommand>) -> Map<
    Seq<char>,
    Seq<char>,
>
    decreases commands.len(),
{
    if commands.len() == 0 {
        map
    } else {
        after(after_all(map, commands.drop_last()), commands.last())
    }
}

/// The number of commands that a shard serves: it ends with the first stop.
pub open spec fn served(commands: Seq<KvCommand>) -> nat
    decreases commands.len(),
{
    if commands.len() == 0 {
        0
    } else if commands[0] is Stop {
        1
    } else {
        1 + served(commands.drop_first())
    }
}

/// The commands of requests.
pub open spec fn commands<R>(requests: Seq<Request<KvCommand, R>>) -> Seq<KvCommand> {
    requests.map_values(|request: Request<KvCommand, R>| request.command)
}

proof fn lemma_served(commands: Seq<KvCommand>, n: int)
    requires
        0 <= n <= commands.len(),
        forall|i: int| 0 <= i < n ==> !((#[trigger] commands[i]) is Stop),
        n < commands.len() ==> commands[n] is Stop,
    ensures
        served(commands) == if n < commands.len() {
            n + 1
        } else {
            n
        },
    decreases n,
{
    if n > 0 {
        let rest = commands.drop_first();
        assert(!(commands[0] is Stop));
        assert forall|i: int| 0 <= i < n - 1 implies !((#[trigger] rest[i]) is Stop) by {
            assert(!(commands[i + 1] is Stop));
        }
        lemma_served(rest, n - 1);
    }
}

/// What came of a run of requests on a shard.
pub struct KvRun<R> {
    /// Where replies go, and the replies, in the order of the requests.
    pub answered: Vec<(R, KvResponse)>,
    /// Requests behind the stop, which get no reply.
    pub dropped: Vec<Request<KvCommand, R>>,
    /// Whether the shard ends.
    pub stopped: bool,
}

/// Serves requests in order until one stops the shard.
pub fn run_kv_shard<R>(
    service: &mut KvService,
    requests: Vec<Request<KvCommand, R>>,
) -> (run: KvRun<R>)
    requires
        old(service).wf(),
    ensures
        final(service).wf(),
        ({
            let all = commands(requests@);
            let n = served(all);
            &&& n <= all.len()
            &&& final(service)@ == after_all(old(service)@, all.take(n as int))
            &&& run.answered@.len() == n
            &&& forall|i: int|
                0 <= i < n ==> (#[trigger] run.answered@[i]).0 == requests@[i].reply && answers(
                    after_all(old(service)@, all.take(i)),
                    all[i],
                    run.answered@[i].1,
                )
            &&& run.dropped@ == requests@.skip(n as int)
            &&& run.stopped == (n > 0 && all[n - 1] is Stop)
        }),
{
    let ghost given = requests@;
    let ghost all = commands(given);
    let ghost first = service@;
    let mut answered: Vec<(R, KvResponse)> = Vec::new();
    let mut dropped: Vec<Request<KvCommand, R>> = Vec::new();
    let mut stopped = false;
    proof {
        assert(all.take(0) =~= Seq::empty());
        assert(dropped@ =~= given.subrange(0, 0));
    }
    for request in it: requests
        invariant
            it.seq() == given,
            all == commands(given),
            service.wf(),
            answered@.len() <= it.index(),
            !stopped ==> answered@.len() == it.index(),
            service@ == after_all(first, all.take(answered@.len() as int)),
            forall|i: int|
                0 <= i < answered@.len() ==> (#[trigger] answered@[i]).0 == given[i].reply
                    && answers(after_all(first, all.take(i)), all[i], answered@[i].1),
            dropped@ == given.subrange(answered@.len() as int, it.index() as int),
            forall|i: int|
                0 <= i < answered@.len() - (if stopped { 1int } else { 0int }) ==> !((
                #[trigger] all[i]) is Stop),
            stopped ==> answered@.len() > 0 && all[answered@.len() - 1] is Stop,
    {
        let ghost i = it.index() as int;
        if stopped {
            dropped.push(request);
            assert(dropped@ =~= given.subrange(answered@.len() as int, i + 1));
        } else {
            let Request { command, reply } = request;
            proof {
                assert(all.take(i + 1).drop_last() =~= all.take(i));
                assert(all[i] == command);
            }
            match command {
                KvCommand::Stop => {
                    stopped = true;
                },
                _ => {},
            }
            let response = service.apply(command);
            answered.push((reply, response));
            assert(dropped@ =~= given.subrange(answered@.len() as int, i + 1));
        }
    }
    proof {
        if stopped {
            lemma_served(all, answered@.len() - 1);
        } else {
            lemma_served(all, all.len() as int);
        }
        assert(given.subrange(answered@.len() as int, given.len() as int) =~= given.skip(
            answered@.len() as int,
        ));
    }
    KvRun { answered, dropped, stopped }
}

/// Whether a command can take away or replace the value of a key.
pub open spec fn overwrites(command: KvCommand, key: Seq<char>) -> bool {
    match command {
        KvCommand::Put { key: k, value } => k@ == key,
        KvCommand::CompareAndPut { key: k, expected, value } => k@ == key,
        KvCommand::Delete { key: k } => k@ == key,
        _ => false,
    }
}

/// Whether a command can give a key a value.
pub open spec fn inserts(command: KvCommand, key: Seq<char>) -> bool {
    match command {
        KvCommand::Put { key: k, value } => k@ == key,
        KvCommand::CompareAndPut { key: k, expected, value } => k@ == key,
        KvCommand::GetOrPut { key: k, value } => k@ == key,
        _ => false,
    }
}

/// A get reads what the last put wrote, whatever the shard serves in between that
/// does not overwrite the key.
pub proof fn put_is_read_back(
    map: Map<Seq<char>, Seq<char>>,
    commands: Seq<KvCommand>,
    put: int,
    get: int,
    response: KvResponse,
)
    requires
        0 <= put < get < commands.len(),
        commands[put] is Put,
        commands[get] is Get,
        commands[get]->Get_key@ == commands[put]->Put_key@,
        forall|i: int|
            put < i < get ==> !overwrites(#[trigger] commands[i], commands[put]->Put_key@),
        answers(after_all(map, commands.take(get)), commands[get], response),
    ensures
        response is Value,
        text_of(response->Value_0) == Some(commands[put]->Put_value@),
    decreases get,
{
    let key = commands[put]->Put_key@;
    lemma_value_stays(map, commands, put, get, commands[put]->Put_value@);
    assert(lookup(after_all(map, commands.take(get)), key) == Some(commands[put]->Put_value@));
}

proof fn lemma_value_stays(
    map: Map<Seq<char>, Seq<char>>,
    commands: Seq<KvCommand>,
    put: int,
    n: int,
    value: Seq<char>,
)
    requires
        0 <= put < n <= commands.len(),
        commands[put] is Put,
        commands[put]->Put_value@ == value,
        forall|i: int| put < i < n ==> !overwrites(#[trigger] commands[i], commands[put]->Put_key@),
    ensures
        lookup(after_all(map, commands.take(n)), commands[put]->Put_key@) == Some(value),
    decreases n,
{
    assert(commands.take(n).drop_last() =~= commands.take(n - 1));
    assert(commands.take(n).last() == commands[n - 1]);
    if put < n - 1 {
        lemma_value_stays(map, commands, put, n - 1, value);
        assert(!overwrites(commands[n - 1], commands[put]->Put_key@));
    }
}

/// A get after a delete reads nothing, whatever the shard serves in between that
/// does not insert the key.
pub proof fn delete_removes(
    map: Map<Seq<char>, Seq<char>>,
    commands: Seq<KvCommand>,
    delete: int,
    get: int,
    response: KvResponse,
)
    requires
        0 <= delete < get < commands.len(),
        commands[delete] is Delete,
        commands[get] is Get,
        commands[get]->Get_key@ == commands[delete]->Delete_key@,
        forall|i: int|
            delete < i < get ==> !inserts(#[trigger] commands[i], commands[delete]->Delete_key@),
        answers(after_all(map, commands.take(get)), commands[get], response),
    ensures
        response is Value,
        response->Value_0 is None,
{
    lemma_absence_stays(map, commands, delete, get);
}

proof fn lemma_absence_stays(
    map: Map<Seq<char>, Seq<char>>,
    commands: Seq<KvCommand>,
    delete: int,
    n: int,
)
    requires
        0 <= delete < n <= commands.len(),
        commands[delete] is Delete,
        forall|i: int|
            delete < i < n ==> !inserts(#[trigger] commands[i], commands[delete]->Delete_key@),
    ensures
        !after_all(map, commands.take(n)).contains_key(commands[delete]->Delete_key@),
    decreases n,
{
    assert(commands.take(n).drop_last() =~= commands.take(n - 1));
    assert(commands.take(n).last() == commands[n - 1]);
    if delete < n - 1 {
        lemma_absence_stays(map, commands, delete, n - 1);
        assert(!inserts(commands[n - 1], commands[delete]->Delete_key@));
    }
}

/// A put adds one key where the key is new and none where it is not.
pub proof fn overwrite_keeps_len(map: Map<Seq<char>, Seq<char>>, key: String, value: String)
    requires
        map.dom().finite(),
    ensures
        after(map, KvCommand::Put { key, value }).len() == if map.contains_key(key@) {
            map.len()
        } else {
            map.len() + 1
        },
{
    if map.contains_key(key@) {
        assert(map.dom().insert(key@) =~= map.dom());
    }
}

/// Of two compare-and-puts that expect the same value and write another, one
/// alone succeeds.
pub proof fn one_compare_and_put_wins(
    map: Map<Seq<char>, Seq<char>>,
    key: String,
    expected: Option<String>,
    first: String,
    second: String,
)
    requires
        lookup(map, key@) == text_of(expected),
        text_of(expected) != Some(first@),
    ensures
        ({
            let won = after(map, KvCommand::CompareAndPut { key, expected, value: first });
            &&& lookup(won, key@) == Some(first@)
            &&& after(won, KvCommand::CompareAndPut { key, expected, value: second }) == won
        }),
{
}

/// A second get-or-put reads what the first stored.
pub proof fn get_or_put_stores_once(
    map: Map<Seq<char>, Seq<char>>,
    key: String,
    first: String,
    second: String,
)
    ensures
        ({
            let stored = after(map, KvCommand::GetOrPut { key, value: first });
            &&& stored.contains_key(key@)
            &&& after(stored, KvCommand::GetOrPut { key, value: second }) == stored
            &&& map.contains_key(key@) ==> stored == map
            &&& !map.contains_key(key@) ==> stored[key@] == first@
        }),
{
}

/// A compare-and-put is answered truly: with true exactly where what the shard held
/// for the key is what was expected, which is nothing where nothing was expected. Then,
/// and only then, the shard holds the new value; otherwise it holds what it held. So
/// whatever changes a shard was answered with true.
pub proof fn compare_and_put_tells_what_it_did(
    map: Map<Seq<char>, Seq<char>>,
    key: String,
    expected: Option<String>,
    value: String,
    response: KvResponse,
)
    requires
        answers(map, KvCommand::CompareAndPut { key, expected, value }, response),
    ensures
        ({
            let held = after(map, KvCommand::CompareAndPut { key, expected, value });
            let as_expected = match expected {
                Some(text) => map.contains_key(key@) && map[key@] == text@,
                None => !map.contains_key(key@),
            };
            &&& response is Replaced
            &&& response->Replaced_0 == as_expected
            &&& held != map ==> response->Replaced_0
            &&& response->Replaced_0 ==> held.contains_key(key@) && held[key@] == value@
            &&& !response->Replaced_0 ==> held == map
            &&& forall|other: Seq<char>|
                other != key@ ==> #[trigger] held.contains_key(other) == map.contains_key(other)
                    && (map.contains_key(other) ==> held[other] == map[other])
        }),
{
}

/// Of two compare-and-puts that expect the same and write something else, served one
/// after the other, the first is answered with true and the second with false, and the
/// first one's value stays. The expected value may be that there is none.
pub proof fn first_compare_and_put_is_told_it_won(
    map: Map<Seq<char>, Seq<char>>,
    key: String,
    expected: Option<String>,
    first: String,
    second: String,
    first_response: KvResponse,
    second_response: KvResponse,
)
    requires
        match expected {
            Some(text) => map.contains_key(key@) && map[key@] == text@ && text@ != first@,
            None => !map.contains_key(key@),
        },
        answers(map, KvCommand::CompareAndPut { key, expected, value: first }, first_response),
        answers(
            after(map, KvCommand::CompareAndPut { key, expected, value: first }),
            KvCommand::CompareAndPut { key, expected, value: second },
            second_response,
        ),
    ensures
        first_response == KvResponse::Replaced(true),
        second_response == KvResponse::Replaced(false),
        ({
            let won = after(map, KvCommand::CompareAndPut { key, expected, value: first });
            let end = after(won, KvCommand::CompareAndPut { key, expected, value: second });
            end.contains_key(key@) && end[key@] == first@
        }),
{
}

/// A get answers what the shard holds for the key, and nothing where it holds nothing.
/// A delete answers the same and then holds nothing for it.
pub proof fn reads_answer_what_is_held(
    map: Map<Seq<char>, Seq<char>>,
    key: String,
    got: KvResponse,
    deleted: KvResponse,
)
    requires
        answers(map, KvCommand::Get { key }, got),
        answers(map, KvCommand::Delete { key }, deleted),
    ensures
        got is Value && deleted is Value,
        got->Value_0 is Some <==> map.contains_key(key@),
        got->Value_0 matches Some(value) ==> value@ == map[key@],
        deleted->Value_0 is Some <==> map.contains_key(key@),
        deleted->Value_0 matches Some(value) ==> value@ == map[key@],
        !after(map, KvCommand::Delete { key }).contains_key(key@),
{
}

/// A get-or-put answers the value that the shard holds afterwards: the one it held, or
/// the offered one where it held none.
pub proof fn get_or_put_answers_what_stays(
    map: Map<Seq<char>, Seq<char>>,
    key: String,
    value: String,
    response: KvResponse,
)
    requires
        answers(map, KvCommand::GetOrPut { key, value }, response),
    ensures
        response is Stored,
        response->Stored_0@ == if map.contains_key(key@) {
            map[key@]
        } else {
            value@
        },
        ({
            let held = after(map, KvCommand::GetOrPut { key, value });
            &&& held.contains_key(key@) && held[key@] == response->Stored_0@
            &&& map.contains_key(key@) ==> held == map
        }),
{
}

/// A put holds the value for its key from then on, whatever was held, and is answered
/// that it was done.
pub proof fn put_replaces_whatever_is_held(
    map: Map<Seq<char>, Seq<char>>,
    key: String,
    value: String,
    response: KvResponse,
)
    requires
        answers(map, KvCommand::Put { key, value }, response),
    ensures
        response == KvResponse::Done,
        after(map, KvCommand::Put { key, value }).contains_key(key@),
        after(map, KvCommand::Put { key, value })[key@] == value@,
{
}

/// A command changes what a shard holds for its own key and for no other.
pub proof fn commands_leave_other_keys_alone(
    map: Map<Seq<char>, Seq<char>>,
    command: KvCommand,
    other: Seq<char>,
)
    requires
        match command {
            KvCommand::Put { key, value } => key@ != other,
            KvCommand::CompareAndPut { key, expected, value } => key@ != other,
            KvCommand::GetOrPut { key, value } => key@ != other,
            KvCommand::Delete { key } => key@ != other,
            KvCommand::Get { key } => true,
            KvCommand::Len => true,
            KvCommand::Keys => true,
            KvCommand::Stop => true,
        },
    ensures
        after(map, command).contains_key(other) == map.contains_key(other),
        map.contains_key(other) ==> after(map, command)[other] == map[other],
{
}

/// A get, a count, a listing and a stop change nothing.
pub proof fn questions_change_nothing(map: Map<Seq<char>, Seq<char>>, key: String)
    ensures
        after(map, KvCommand::Get { key }) == map,
        after(map, KvCommand::Len) == map,
        after(map, KvCommand::Keys) == map,
        after(map, KvCommand::Stop) == map,
{
}

/// The count that a shard answers is the number of keys that it lists, each of which it
/// holds, each once; and every key that it holds is listed.
pub proof fn count_is_that_of_the_listed_keys(
    map: Map<Seq<char>, Seq<char>>,
    counted: KvResponse,
    listed: KvResponse,
)
    requires
        answers(map, KvCommand::Len, counted),
        answers(map, KvCommand::Keys, listed),
    ensures
        counted is Len && listed is Keys,
        counted->Len_0 == listed->Keys_0@.len(),
        forall|i: int|
            0 <= i < listed->Keys_0@.len() ==> map.contains_key(#[trigger] listed->Keys_0@[i]@),
        forall|i: int, j: int|
            0 <= i < j < listed->Keys_0@.len() ==> (#[trigger] listed->Keys_0@[i])@ != (
            #[trigger] listed->Keys_0@[j])@,
        forall|key: Seq<char>| #[trigger]
            map.contains_key(key) ==> exists|i: int|
                0 <= i < listed->Keys_0@.len() && (#[trigger] listed->Keys_0@[i])@ == key,
        counted->Len_0 == map.dom().len(),
{
    let strings = listed->Keys_0@;
    let keys = texts(strings);
    assert(keys.len() == strings.len());
    assert forall|i: int| 0 <= i < strings.len() implies map.contains_key(
        #[trigger] strings[i]@,
    ) by {
        assert(keys[i] == strings[i]@);
        assert(keys.contains(keys[i]));
    }
    assert forall|i: int, j: int| 0 <= i < j < strings.len() implies (#[trigger] strings[i])@ != (
    #[trigger] strings[j])@ by {
        assert(keys[i] != keys[j]);
    }
    assert forall|key: Seq<char>| #[trigger] map.contains_key(key) implies exists|i: int|
        0 <= i < strings.len() && (#[trigger] strings[i])@ == key by {
        assert(keys.contains(key));
        let i = choose|i: int| 0 <= i < keys.len() && keys[i] == key;
        assert(strings[i]@ == key);
    }
    keys.unique_seq_to_set();
    assert(keys.to_set() =~= map.dom());
}

/// A shard serves every command up to and including the first stop, and all of them
/// where none is a stop.
pub proof fn shard_serves_up_to_the_stop(commands: Seq<KvCommand>)
    ensures
        ({
            let n = served(commands) as int;
            &&& n <= commands.len()
            &&& forall|i: int| 0 <= i < n - 1 ==> !((#[trigger] commands[i]) is Stop)
            &&& n < commands.len() ==> n > 0 && commands[n - 1] is Stop
        }),
    decreases commands.len(),
{
    if commands.len() > 0 && !(commands[0] is Stop) {
        let rest = commands.drop_first();
        shard_serves_up_to_the_stop(rest);
        let n = served(commands) as int;
        assert forall|i: int| 0 <= i < n - 1 implies !((#[trigger] commands[i]) is Stop) by {
            if i > 0 {
                assert(rest[i - 1] == commands[i]);
            }
        }
    }
}

/// Serving one more command goes on from where the commands before it ended.
pub proof fn commands_are_served_in_turn(
    map: Map<Seq<char>, Seq<char>>,
    first: Seq<KvCommand>,
    second: Seq<KvCommand>,
)
    ensures
        after_all(map, first + second) == after_all(after_all(map, first), second),
        after_all(map, Seq::<KvCommand>::empty()) == map,
        first.len() == 1 ==> after_all(map, first) == after(map, first[0]),
    decreases second.len(),
{
    if first.len() == 1 {
        reveal_with_fuel(after_all, 2);
        assert(first.drop_last() =~= Seq::<KvCommand>::empty());
    }
    if second.len() == 0 {
        assert(first + second =~= first);
    } else {
        assert((first + second).drop_last() =~= first + second.drop_last());
        assert((first + second).last() == second.last());
        commands_are_served_in_turn(map, first, second.drop_last());
    }
}

/// Commands are served in the order of their requests, one for each.
pub proof fn commands_are_those_of_the_requests<R>(requests: Seq<Request<KvCommand, R>>)
    ensures
        commands(requests).len() == requests.len(),
        forall|i: int|
            0 <= i < requests.len() ==> #[trigger] commands(requests)[i] == requests[i].command,
{
}

} // verus!
