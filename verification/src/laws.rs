use vstd::prelude::*;
use crate::error::Error;
use crate::key::Key;
use crate::model::{
    caracteres, check_nombre, greeting, lemma_caracteres_bounds, Call, Op, Reply, State,
    MAX_NOMBRE, TTL_WINDOW,
};

verus! {

/// On a contract without an admin, `initialize` succeeds for any identity
/// and leaves the counter at zero. A second `initialize`, with any identity,
/// fails with `NoInicializado` and changes nothing.
pub proof fn law_initialize_once(s: State, first: Seq<u8>, second: Seq<u8>)
    requires
        !s.initialized(),
    ensures
        s.initialize(first).1 == Ok::<(), Error>(()),
        s.initialize(first).0.admin == Some(first),
        s.initialize(first).0.get_contador() == 0,
        s.initialize(first).0.initialize(second).1 == Err::<(), Error>(Error::NoInicializado),
        s.initialize(first).0.initialize(second).0 == s.initialize(first).0,
{
}

/// `initialize` succeeds exactly on a contract without an admin.
pub proof fn law_initialize_iff_uninitialized(s: State, admin: Seq<u8>)
    ensures
        s.initialize(admin).1 is Ok <==> !s.initialized(),
        s.initialized() ==> s.initialize(admin).1 == Err::<(), Error>(Error::NoInicializado),
        s.initialized() ==> s.initialize(admin).0 == s,
{
}

/// With the length of a name counted in characters: `hello` fails with
/// `NombreVacio` for a name of length zero and with `NombreMuyLargo` for one
/// longer than the maximum, changing nothing. For every other name it
/// succeeds with the greeting token, raises the counter by exactly one, and
/// makes the name the user's last greeting.
pub proof fn law_hello(s: State, usuario: Seq<u8>, nombre: Seq<u8>)
    requires
        1 <= caracteres(nombre) <= MAX_NOMBRE ==> s.get_contador() < u32::MAX,
    ensures
        caracteres(nombre) == 0 ==> s.hello(usuario, nombre) == (
            s,
            Err::<Seq<char>, Error>(Error::NombreVacio),
        ),
        caracteres(nombre) > MAX_NOMBRE ==> s.hello(usuario, nombre) == (
            s,
            Err::<Seq<char>, Error>(Error::NombreMuyLargo),
        ),
        1 <= caracteres(nombre) <= MAX_NOMBRE ==> {
            &&& s.hello(usuario, nombre).1 == Ok::<Seq<char>, Error>(greeting())
            &&& s.hello(usuario, nombre).0.get_contador() == s.get_contador() + 1
            &&& s.hello(usuario, nombre).0.get_ultimo_saludo(usuario) == Some(nombre)
        },
        nombre.len() == 0 ==> caracteres(nombre) == 0,
{
    lemma_caracteres_bounds(nombre);
}

/// A greeting touches the last greeting of no other user, and never the
/// admin.
pub proof fn law_hello_leaves_others(
    s: State,
    usuario: Seq<u8>,
    nombre: Seq<u8>,
    otro: Seq<u8>,
)
    requires
        otro != usuario,
    ensures
        s.hello(usuario, nombre).0.get_ultimo_saludo(otro) == s.get_ultimo_saludo(otro),
        s.hello(usuario, nombre).0.admin == s.admin,
{
}

/// A call that only reads leaves the state as it is, so the same read made
/// twice in a row answers the same both times.
pub proof fn law_reads_change_nothing(s: State, call: Call)
    requires
        call.is_read(),
    ensures
        s.step(call).0 == s,
        s.step(call).0.step(call).1 == s.step(call).1,
        s.step(call).1 == (match call {
            Call::GetUltimoSaludo(usuario) => Reply::UltimoSaludo(s.get_ultimo_saludo(usuario)),
            _ => Reply::Contador(s.get_contador()),
        }),
{
}

/// `reset_contador` succeeds exactly when there is an admin and the caller
/// is that admin. Without an admin it fails with `NoInicializado`; for any
/// other caller, with `NoAutorizado`. A success leaves the counter at zero
/// whatever it was before, and touches neither the admin nor any greeting.
pub proof fn law_reset_contador(s: State, caller: Seq<u8>)
    ensures
        s.reset_contador(caller).1 is Ok <==> s.admin == Some(caller),
        !s.initialized() ==> s.reset_contador(caller).1 == Err::<(), Error>(
            Error::NoInicializado,
        ),
        s.initialized() && s.admin != Some(caller) ==> s.reset_contador(caller).1 == Err::<
            (),
            Error,
        >(Error::NoAutorizado),
        s.reset_contador(caller).1 is Ok ==> {
            &&& s.reset_contador(caller).0.get_contador() == 0
            &&& s.reset_contador(caller).0.admin == s.admin
            &&& s.reset_contador(caller).0.saludos == s.saludos
        },
        s.reset_contador(caller).1 is Err ==> s.reset_contador(caller).0 == s,
{
}

/// A call that is refused leaves the state exactly as it was: nothing
/// stored, nothing asked of the store.
pub proof fn law_failure_changes_nothing(s: State, call: Call)
    requires
        s.step(call).1 is Failed,
    ensures
        s.step(call).0 == s,
{
}

/// Once assigned, the admin stays: no call replaces or removes it.
pub proof fn law_admin_is_write_once(s: State, call: Call)
    requires
        s.initialized(),
    ensures
        s.step(call).0.admin == s.admin,
{
}

/// The contract is either uninitialized or initialized, and the way from the
/// first to the second is one-way: an initialized contract stays so under
/// every call, and an uninitialized one becomes initialized by `initialize`
/// and by nothing else.
pub proof fn law_initialized_is_one_way(s: State, call: Call)
    ensures
        !State::empty().initialized(),
        s.initialized() ==> s.step(call).0.initialized(),
        !s.initialized() ==> (s.step(call).0.initialized() <==> call is Initialize),
{
}

/// How the counter moves: an accepted greeting raises it by one, a successful
/// `initialize` or `reset_contador` leaves it at zero, and every other call,
/// refused ones among them, leaves it where it was.
pub proof fn law_counter_moves(s: State, call: Call)
    requires
        call matches Call::Hello(_, nombre) ==> check_nombre(nombre) is Ok ==> s.get_contador()
            < u32::MAX,
    ensures
        s.step(call).0.get_contador() == (match call {
            Call::Hello(_, nombre) if check_nombre(nombre) is Ok => s.get_contador() + 1,
            Call::Initialize(_) if !s.initialized() => 0,
            Call::ResetContador(caller) if s.admin == Some(caller) => 0,
            _ => s.get_contador() as int,
        }),
{
}

/// No call removes an entry: what the store holds under a key, it keeps
/// holding something under that key.
pub proof fn law_entries_are_never_deleted(s: State, call: Call, key: Key)
    requires
        s.has(key),
    ensures
        s.step(call).0.has(key),
{
}

/// Every call keeps a consistent state consistent: stored greetings stay
/// between one character and the maximum length, and the counter exists
/// wherever the admin does. The empty state is consistent.
pub proof fn law_consistency_is_kept(s: State, call: Call)
    requires
        s.consistent(),
    ensures
        State::empty().consistent(),
        s.step(call).0.consistent(),
{
    let next = s.step(call).0;
    assert forall|usuario: Seq<u8>| #[trigger]
        next.saludos.contains_key(usuario) implies check_nombre(next.saludos[usuario]) is Ok by {
        if !s.saludos.contains_key(usuario) {
            assert(call.greets(usuario));
        }
    }
}

/// What a call does to the last greeting of a user: an accepted greeting
/// from that user sets it to the name given, and every other call leaves it
/// as it was.
pub proof fn law_last_greeting_step(s: State, call: Call, usuario: Seq<u8>)
    ensures
        s.step(call).0.get_ultimo_saludo(usuario) == (match call {
            Call::Hello(u, nombre) if call.greets(usuario) => Some(nombre),
            _ => s.get_ultimo_saludo(usuario),
        }),
{
}

/// Starting from nothing, a user has a last greeting exactly when some call
/// of the run was an accepted greeting from that user. So for a user who
/// never greeted, `get_ultimo_saludo` answers that there is none.
pub proof fn law_greeting_iff_greeted(calls: Seq<Call>, usuario: Seq<u8>)
    ensures
        State::empty().run(calls).get_ultimo_saludo(usuario) is Some <==> exists|i: int|
            0 <= i < calls.len() && (#[trigger] calls[i]).greets(usuario),
    decreases calls.len(),
{
    if calls.len() > 0 {
        let before = calls.drop_last();
        let last = calls.last();
        law_greeting_iff_greeted(before, usuario);
        law_last_greeting_step(State::empty().run(before), last, usuario);
        if State::empty().run(calls).get_ultimo_saludo(usuario) is Some {
            if last.greets(usuario) {
                assert(calls[calls.len() - 1].greets(usuario));
            } else {
                let i = choose|i: int| 0 <= i < before.len() && (#[trigger] before[i]).greets(usuario);
                assert(calls[i] == before[i]);
            }
        }
        if exists|i: int| 0 <= i < calls.len() && (#[trigger] calls[i]).greets(usuario) {
            let i = choose|i: int| 0 <= i < calls.len() && (#[trigger] calls[i]).greets(usuario);
            if i < before.len() {
                assert(before[i] == calls[i]);
            }
        }
    }
}

/// The last greeting of a user is the name of that user's most recent
/// accepted greeting: whatever the state a run starts from, if call `i` is
/// an accepted greeting from the user and no later call is, the run ends
/// with the name of call `i` as the user's last greeting, a name of one
/// character at least and of the maximum at most.
pub proof fn law_last_greeting_is_latest(s: State, calls: Seq<Call>, i: int, usuario: Seq<u8>)
    requires
        0 <= i < calls.len(),
        calls[i].greets(usuario),
        forall|j: int| i < j < calls.len() ==> !(#[trigger] calls[j]).greets(usuario),
    ensures
        calls[i] matches Call::Hello(_, nombre) && {
            &&& s.run(calls).get_ultimo_saludo(usuario) == Some(nombre)
            &&& 1 <= caracteres(nombre) <= MAX_NOMBRE
        },
    decreases calls.len(),
{
    let before = calls.drop_last();
    law_last_greeting_step(s.run(before), calls.last(), usuario);
    if i < calls.len() - 1 {
        assert(before[i] == calls[i]);
        assert forall|j: int| i < j < before.len() implies !(#[trigger] before[j]).greets(
            usuario,
        ) by {
            assert(before[j] == calls[j]);
        }
        law_last_greeting_is_latest(s, before, i, usuario);
    }
}

/// The counter counts greetings: after a run of calls it reads the number
/// of greetings accepted since an `initialize` or a `reset_contador` last
/// succeeded, or, where none did, since the run began, on top of what it
/// read then. This holds as long as that number never passes what the
/// counter can hold.
pub proof fn law_counter_counts_greetings(s: State, calls: Seq<Call>)
    requires
        forall|k: int|
            0 <= k <= calls.len() ==> #[trigger] s.greetings_counted(calls.take(k)) <= u32::MAX,
    ensures
        s.run(calls).get_contador() == s.greetings_counted(calls),
    decreases calls.len(),
{
    if calls.len() > 0 {
        let before = calls.drop_last();
        assert(calls.take(calls.len() as int) == calls);
        assert(calls.take(before.len() as int) == before);
        assert forall|k: int| 0 <= k <= before.len() implies #[trigger] s.greetings_counted(
            before.take(k),
        ) <= u32::MAX by {
            assert(before.take(k) == calls.take(k));
        }
        law_counter_counts_greetings(s, before);
        assert(s.greetings_counted(calls.take(calls.len() as int)) <= u32::MAX);
        law_counter_moves(s.run(before), calls.last());
    }
}

/// The journal tells the whole story of a call: the call leaves the old
/// journal in place and adds its requests at the end, and a store that held
/// the entries of the state before the call and carries those requests out
/// holds the entries of the state after it.
pub proof fn law_journal_is_faithful(s: State, call: Call)
    ensures
        s.step(call).0.journal == s.journal + s.requested(call),
        s.carry_out_all(s.requested(call)).same_entries(s.step(call).0),
{
    let next = s.step(call).0;
    let added = s.requested(call);
    assert(next.journal =~= s.journal + added);
    match call {
        Call::Initialize(admin) => {
            if !s.initialized() {
                let ops = seq![
                    Op::SetAdmin(admin),
                    Op::SetContador(0),
                    Op::ExtendInstance(TTL_WINDOW, TTL_WINDOW),
                ];
                assert(added =~= ops);
                lemma_carry_out_three(s, ops[0], ops[1], ops[2]);
            } else {
                assert(added =~= Seq::empty());
            }
        },
        Call::Hello(usuario, nombre) => {
            if check_nombre(nombre) is Ok {
                let siguiente = (s.get_contador() + 1) as u32;
                let ops = seq![
                    Op::SetContador(siguiente),
                    Op::SetUltimoSaludo(usuario, nombre),
                    Op::ExtendPersistent(Key::UltimoSaludo(usuario), TTL_WINDOW, TTL_WINDOW),
                    Op::ExtendInstance(TTL_WINDOW, TTL_WINDOW),
                ];
                assert(added =~= ops);
                assert(ops.drop_last() =~= seq![ops[0], ops[1], ops[2]]);
                lemma_carry_out_three(s, ops[0], ops[1], ops[2]);
            } else {
                assert(added =~= Seq::empty());
            }
        },
        Call::ResetContador(caller) => {
            if s.admin == Some(caller) {
                let ops = seq![Op::SetContador(0), Op::ExtendInstance(TTL_WINDOW, TTL_WINDOW)];
                reveal_with_fuel(State::carry_out_all, 3);
                assert(added =~= ops);
                assert(ops.drop_last() =~= seq![ops[0]]);
                assert(ops.drop_last().drop_last() =~= Seq::empty());
            } else {
                assert(added =~= Seq::empty());
            }
        },
        _ => {
            assert(added =~= Seq::empty());
        },
    }
}

/// Carrying out three requests is carrying out the first, then the second,
/// then the third.
proof fn lemma_carry_out_three(s: State, a: Op, b: Op, c: Op)
    ensures
        s.carry_out_all(seq![a, b, c]) == s.carry_out(a).carry_out(b).carry_out(c),
{
    reveal_with_fuel(State::carry_out_all, 4);
    let ops = seq![a, b, c];
    assert(ops.drop_last() =~= seq![a, b]);
    assert(ops.drop_last().drop_last() =~= seq![a]);
    assert(ops.drop_last().drop_last().drop_last() =~= Seq::empty());
}

/// Carrying out one list of requests and then another is carrying out the
/// two lists joined.
pub proof fn law_carry_out_in_turn(s: State, first: Seq<Op>, second: Seq<Op>)
    ensures
        s.carry_out_all(first + second) == s.carry_out_all(first).carry_out_all(second),
    decreases second.len(),
{
    if second.len() == 0 {
        assert(first + second =~= first);
    } else {
        law_carry_out_in_turn(s, first, second.drop_last());
        assert((first + second).drop_last() =~= first + second.drop_last());
    }
}

/// What carrying requests out does to the entries does not depend on the
/// journal: stores that hold the same entries hold the same entries
/// afterwards.
proof fn lemma_carry_out_all_same_entries(a: State, b: State, ops: Seq<Op>)
    requires
        a.same_entries(b),
    ensures
        a.carry_out_all(ops).same_entries(b.carry_out_all(ops)),
    decreases ops.len(),
{
    if ops.len() > 0 {
        lemma_carry_out_all_same_entries(a, b, ops.drop_last());
    }
}

/// A store that starts empty and carries out the journal of a whole run of
/// calls ends up holding exactly the entries that the run leaves.
pub proof fn law_journal_replays_the_run(calls: Seq<Call>)
    ensures
        State::empty().carry_out_all(State::empty().run(calls).journal).same_entries(
            State::empty().run(calls),
        ),
    decreases calls.len(),
{
    if calls.len() > 0 {
        let before = State::empty().run(calls.drop_last());
        let call = calls.last();
        law_journal_replays_the_run(calls.drop_last());
        law_journal_is_faithful(before, call);
        law_carry_out_in_turn(State::empty(), before.journal, before.requested(call));
        lemma_carry_out_all_same_entries(
            State::empty().carry_out_all(before.journal),
            before,
            before.requested(call),
        );
    }
}

/// A call reads little: `initialize` and `reset_contador` read the admin,
/// `hello` and `get_contador` read the counter, leniently, and
/// `get_ultimo_saludo` reads the greeting of the user it is asked about. On
/// two states that agree on what a call reads, the call answers the same
/// and asks the same of the store, so it may run on a ledger that holds no
/// more than that.
pub proof fn law_calls_read_little(a: State, b: State, call: Call)
    requires
        call is Initialize || call is ResetContador ==> a.admin == b.admin,
        call is Hello || call is GetContador ==> a.get_contador() == b.get_contador(),
        call matches Call::GetUltimoSaludo(usuario) ==> a.get_ultimo_saludo(usuario)
            == b.get_ultimo_saludo(usuario),
    ensures
        a.step(call).1 == b.step(call).1,
        a.requested(call) == b.requested(call),
{
    law_journal_is_faithful(a, call);
    law_journal_is_faithful(b, call);
    assert(a.requested(call) =~= b.requested(call));
}

} // verus!
