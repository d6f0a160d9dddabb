//! What the command line asks for.

use vstd::prelude::*;

use crate::sessionlog;
use crate::sessionlog::{session_path, SessionLog};
use crate::step::Failure;
use crate::text;
use crate::text::{join, split, to_decimal, trim};

verus! {

/// How requests to the MCP server are authorized.
pub enum Auth {
    /// By tokens of this endpoint, for this client.
    OAuth { endpoint: String, client_id: String, client_secret: String },
    /// Not at all.
    Open,
}

/// The mathematical value of an `Auth`.
pub enum AuthView {
    OAuth { endpoint: Seq<char>, client_id: Seq<char>, client_secret: Seq<char> },
    Open,
}

impl View for Auth {
    type V = AuthView;

    open spec fn view(&self) -> AuthView {
        match self {
            Auth::OAuth { endpoint, client_id, client_secret } => AuthView::OAuth {
                endpoint: endpoint@,
                client_id: client_id@,
                client_secret: client_secret@,
            },
            Auth::Open => AuthView::Open,
        }
    }
}

/// How requests are authorized, by three options: all of them, or none.
pub open spec fn auth_view(
    endpoint: Option<Seq<char>>,
    client_id: Option<Seq<char>>,
    client_secret: Option<Seq<char>>,
) -> Option<AuthView> {
    match (endpoint, client_id, client_secret) {
        (Some(endpoint), Some(client_id), Some(client_secret)) => Some(
            AuthView::OAuth { endpoint, client_id, client_secret },
        ),
        (None, None, None) => Some(AuthView::Open),
        _ => None,
    }
}

/// Decides how requests are authorized.
pub fn auth_config(
    endpoint: Option<String>,
    client_id: Option<String>,
    client_secret: Option<String>,
) -> (auth: Result<Auth, Failure>)
    ensures
        match auth {
            Ok(auth) => auth_view(
                text::opt_string(endpoint),
                text::opt_string(client_id),
                text::opt_string(client_secret),
            ) == Some(auth@),
            Err(failure) => auth_view(
                text::opt_string(endpoint),
                text::opt_string(client_id),
                text::opt_string(client_secret),
            ) is None && failure@
                == seq!["Partial auth config: set ALL of --auth-token-endpoint / --auth-client-id / --auth-client-secret, or NONE."@],
        },
{
    match (endpoint, client_id, client_secret) {
        (Some(endpoint), Some(client_id), Some(client_secret)) => Ok(
            Auth::OAuth { endpoint, client_id, client_secret },
        ),
        (None, None, None) => Ok(Auth::Open),
        _ => Err(
            Failure::new(
                "Partial auth config: set ALL of --auth-token-endpoint / --auth-client-id / --auth-client-secret, or NONE.".to_owned(),
            ),
        ),
    }
}

/// The remark on how requests are authorized.
pub open spec fn auth_note_view(auth: AuthView) -> Seq<char> {
    match auth {
        AuthView::OAuth { endpoint, .. } => "Authenticated via OAuth2 at "@ + endpoint,
        AuthView::Open =>
            "No auth configured — MCP requests will be sent without Authorization header."@,
    }
}

/// The remark on how requests are authorized.
pub fn auth_note(auth: &Auth) -> (note: String)
    ensures
        note@ == auth_note_view(auth@),
{
    match auth {
        Auth::OAuth { endpoint, .. } => "Authenticated via OAuth2 at ".to_owned().concat(
            endpoint.as_str(),
        ),
        Auth::Open =>
            "No auth configured — MCP requests will be sent without Authorization header.".to_owned(),
    }
}

/// The texts that are not empty once the white space around them is gone.
pub open spec fn trimmed_texts(list: Seq<Seq<char>>) -> Seq<Seq<char>>
    decreases list.len(),
{
    if list.len() == 0 {
        Seq::empty()
    } else {
        let front = trimmed_texts(list.drop_last());
        let last = text::trimmed(list.last());
        if last.len() == 0 {
            front
        } else {
            front.push(last)
        }
    }
}

/// The providers that an option names.
pub open spec fn provider_order_view(option: Option<Seq<char>>) -> Seq<Seq<char>> {
    match option {
        Some(list) => trimmed_texts(text::pieces(list, ',')),
        None => Seq::empty(),
    }
}

/// The providers that an option names, separated by commas. White space around
/// a name does not count, and neither does an empty name.
pub fn provider_order(option: Option<&str>) -> (order: Vec<String>)
    ensures
        text::texts(order@) == provider_order_view(text::opt_text(option)),
{
    let mut order: Vec<String> = Vec::new();
    assert(text::texts(order@) =~= Seq::empty());
    match option {
        Some(list) => {
            let parts = split(list, ',');
            let ghost all = text::texts(parts@);
            let mut i: usize = 0;
            assert(all.take(0) =~= Seq::empty());
            while i < parts.len()
                invariant
                    i <= parts@.len(),
                    all == text::texts(parts@),
                    text::texts(order@) == trimmed_texts(all.take(i as int)),
                decreases parts@.len() - i,
            {
                assert(all.take(i + 1).drop_last() =~= all.take(i as int));
                let name = trim(parts[i].as_str());
                if !name.as_str().is_empty() {
                    let ghost before = text::texts(order@);
                    order.push(name);
                    assert(text::texts(order@) =~= before.push(name@));
                }
                i += 1;
            }
            assert(all.take(parts@.len() as int) =~= all);
        },
        None => {},
    }
    order
}

/// Every provider has a name, and it is one of the listed texts without the
/// white space around it.
pub proof fn law_providers_are_named(list: Seq<Seq<char>>)
    ensures
        forall|i: int|
            0 <= i < trimmed_texts(list).len() ==> (#[trigger] trimmed_texts(list)[i]).len() > 0
                && exists|k: int|
                0 <= k < list.len() && trimmed_texts(list)[i] == text::trimmed(#[trigger] list[k]),
    decreases list.len(),
{
    if list.len() > 0 {
        let front = list.drop_last();
        law_providers_are_named(front);
        let names = trimmed_texts(list);
        assert forall|i: int| 0 <= i < names.len() implies (#[trigger] names[i]).len() > 0
            && exists|k: int|
            0 <= k < list.len() && names[i] == text::trimmed(#[trigger] list[k]) by {
            let before = trimmed_texts(front);
            if i < before.len() {
                assert(names[i] == before[i]);
                let k = choose|k: int|
                    0 <= k < front.len() && before[i] == text::trimmed(#[trigger] front[k]);
                assert(list[k] == front[k]);
            } else {
                assert(names[i] == text::trimmed(list[list.len() - 1]));
            }
        }
    }
}

/// The remark on the route to the model.
pub open spec fn route_note(order: Seq<Seq<char>>) -> Seq<char> {
    if order.len() == 0 {
        "auto-route"@
    } else {
        "provider order=["@ + text::joined(order, ","@) + "]"@
    }
}

/// The remark on the model and the route to it.
pub open spec fn model_note_view(
    base_url: Seq<char>,
    model: Seq<char>,
    order: Seq<Seq<char>>,
) -> Seq<char> {
    "Using OpenRouter (base="@ + base_url + ", model="@ + model + ", "@ + route_note(order) + ")."@
}

/// The remark on the model and the route to it.
pub fn model_note(base_url: &str, model: &str, order: &Vec<String>) -> (note: String)
    ensures
        note@ == model_note_view(base_url@, model@, text::texts(order@)),
{
    let route = if order.len() == 0 {
        "auto-route".to_owned()
    } else {
        "provider order=[".to_owned().concat(join(order, ",").as_str()).concat("]")
    };
    "Using OpenRouter (base=".to_owned().concat(base_url).concat(", model=").concat(model).concat(
        ", ",
    ).concat(route.as_str()).concat(").")
}

/// What kind of chat is asked for.
pub enum Mode {
    /// An interactive one.
    Interactive,
    /// One turn with this message, on the conversation in the log at this path.
    OneShot { prompt: String, history: String },
}

/// The mathematical value of a `Mode`.
pub enum ModeView {
    Interactive,
    OneShot { prompt: Seq<char>, history: Seq<char> },
}

impl View for Mode {
    type V = ModeView;

    open spec fn view(&self) -> ModeView {
        match self {
            Mode::Interactive => ModeView::Interactive,
            Mode::OneShot { prompt, history } => ModeView::OneShot {
                prompt: prompt@,
                history: history@,
            },
        }
    }
}

/// What kind of chat is asked for. A message calls for one turn, on the
/// conversation of a log: the one that is named, or else that of the session.
/// A message without either, or a log without a message, is refused.
pub open spec fn mode_view(
    prompt: Option<Seq<char>>,
    from_log: Option<Seq<char>>,
    session_id: Option<Seq<char>>,
    log_dir: Seq<char>,
) -> Result<ModeView, Seq<char>> {
    match prompt {
        Some(prompt) => match (from_log, session_id) {
            (Some(path), _) => Ok(ModeView::OneShot { prompt, history: path }),
            (None, Some(id)) => Ok(
                ModeView::OneShot {
                    prompt,
                    history: sessionlog::path_join(log_dir, sessionlog::file_name(id)),
                },
            ),
            (None, None) => Err("--prompt requires --from-log or --session-id."@),
        },
        None => if from_log is Some {
            Err(
                "--from-log requires --prompt (one-shot mode). For REPL history reuse, pass --session-id instead."@,
            )
        } else {
            Ok(ModeView::Interactive)
        },
    }
}

/// Decides what kind of chat is asked for.
pub fn choose_mode(
    prompt: Option<String>,
    from_log: Option<String>,
    session_id: Option<&str>,
    log_dir: &str,
) -> (mode: Result<Mode, Failure>)
    ensures
        match mode {
            Ok(mode) => mode_view(
                text::opt_string(prompt),
                text::opt_string(from_log),
                text::opt_text(session_id),
                log_dir@,
            ) == Ok::<ModeView, Seq<char>>(mode@),
            Err(failure) => mode_view(
                text::opt_string(prompt),
                text::opt_string(from_log),
                text::opt_text(session_id),
                log_dir@,
            ) matches Err(message) && failure@ == seq![message],
        },
{
    match prompt {
        Some(prompt) => match (from_log, session_id) {
            (Some(path), _) => Ok(Mode::OneShot { prompt, history: path }),
            (None, Some(id)) => Ok(Mode::OneShot { prompt, history: session_path(log_dir, id) }),
            (None, None) => Err(
                Failure::new("--prompt requires --from-log or --session-id.".to_owned()),
            ),
        },
        None => match from_log {
            Some(_) => Err(
                Failure::new(
                    "--from-log requires --prompt (one-shot mode). For REPL history reuse, pass --session-id instead.".to_owned(),
                ),
            ),
            None => Ok(Mode::Interactive),
        },
    }
}

/// The remark on the earlier conversation: how long it is and where it comes
/// from, or that there is none.
pub open spec fn history_note_view(loaded: Option<nat>, path: Seq<char>) -> Seq<char> {
    match loaded {
        Some(n) => "Loaded "@ + text::decimal(n) + " messages from "@ + path,
        None => "Starting from empty history."@,
    }
}

/// The remark on the earlier conversation.
pub fn history_note(loaded: Option<usize>, path: &str) -> (note: String)
    ensures
        note@ == history_note_view(
            match loaded {
                Some(n) => Some(n as nat),
                None => None,
            },
            path@,
        ),
{
    match loaded {
        Some(n) => "Loaded ".to_owned().concat(to_decimal(n as u64).as_str()).concat(
            " messages from ",
        ).concat(path),
        None => "Starting from empty history.".to_owned(),
    }
}

/// The log of a chat of one turn. It always captures; it has a file where the
/// session has an id, unless logs are switched off.
pub fn oneshot_log(log_dir: &str, session_id: Option<&str>, no_log: bool) -> (log: SessionLog)
    ensures
        log@.wf(),
        log@ == sessionlog::fresh_log(
            match (session_id, no_log) {
                (Some(id), false) => Some(
                    sessionlog::path_join(log_dir@, sessionlog::file_name(id@)),
                ),
                _ => None,
            },
            true,
        ),
{
    match (session_id, no_log) {
        (Some(id), false) => SessionLog::open_with_id_tee(log_dir, id),
        _ => SessionLog::open_buffer(),
    }
}

/// The log of an interactive chat, unless logs are switched off: that of the
/// session where it has an id, or else a new one, named after the present time
/// and the model.
pub fn interactive_log(
    log_dir: &str,
    model: &str,
    session_id: Option<&str>,
    no_log: bool,
) -> (log: Option<SessionLog>)
    ensures
        log is None <==> no_log,
        log matches Some(log) ==> {
            &&& log@.wf()
            &&& log@.path matches Some(path) && log@ == sessionlog::fresh_log(Some(path), false)
            &&& match session_id {
                Some(id) => log@.path == Some(
                    sessionlog::path_join(log_dir@, sessionlog::file_name(id@)),
                ),
                None => exists|stamp: Seq<char>|
                    sessionlog::is_stamp(stamp) && log@.path == Some(
                        sessionlog::path_join(
                            log_dir@,
                            #[trigger] sessionlog::file_name(
                                stamp + "-"@ + sessionlog::slug(model@),
                            ),
                        ),
                    ),
            }
        },
{
    if no_log {
        None
    } else {
        match session_id {
            Some(id) => Some(SessionLog::open_with_id(log_dir, id)),
            None => Some(SessionLog::open(log_dir, model)),
        }
    }
}

/// The remark on where a session is logged.
pub fn log_note(path: &str, interactive: bool) -> (note: String)
    ensures
        note@ == (if interactive {
            "Logging session to "@
        } else {
            "Appending session to "@
        }) + path@,
{
    if interactive {
        "Logging session to ".to_owned().concat(path)
    } else {
        "Appending session to ".to_owned().concat(path)
    }
}

/// Chats of one turn with one session id, and without another log named, read
/// the very file that they append to.
pub proof fn law_session_reads_its_own_log(
    prompt: Seq<char>,
    id: Seq<char>,
    log_dir: Seq<char>,
)
    ensures
        mode_view(Some(prompt), None, Some(id), log_dir) == Ok::<ModeView, Seq<char>>(
            ModeView::OneShot {
                prompt,
                history: sessionlog::path_join(log_dir, sessionlog::file_name(id)),
            },
        ),
{
}

/// A message and a log call for each other: where a log is named, there is a
/// chat if and only if there is a message too; and where neither a log nor a
/// session is named, a message gets no chat.
pub proof fn law_message_and_log_go_together(
    prompt: Option<Seq<char>>,
    from_log: Option<Seq<char>>,
    session_id: Option<Seq<char>>,
    log_dir: Seq<char>,
)
    ensures
        from_log is Some ==> (mode_view(prompt, from_log, session_id, log_dir) is Ok
            <==> prompt is Some),
        from_log is None && session_id is None ==> (mode_view(
            prompt,
            from_log,
            session_id,
            log_dir,
        ) is Ok <==> prompt is None),
{
}

/// A client that has an endpoint, an id and a secret asks for tokens with
/// these; one that has none of them asks for none; and any other is refused.
pub proof fn law_all_or_none(
    endpoint: Option<Seq<char>>,
    client_id: Option<Seq<char>>,
    client_secret: Option<Seq<char>>,
)
    ensures
        ({
            let auth = auth_view(endpoint, client_id, client_secret);
            &&& endpoint is Some && client_id is Some && client_secret is Some ==> (auth matches Some(
                AuthView::OAuth { endpoint: e, client_id: i, client_secret: s },
            ) && endpoint == Some(e) && client_id == Some(i) && client_secret == Some(s))
            &&& endpoint is None && client_id is None && client_secret is None ==> auth == Some(
                AuthView::Open,
            )
            &&& auth is None <==> {
                &&& endpoint is Some || client_id is Some || client_secret is Some
                &&& endpoint is None || client_id is None || client_secret is None
            }
        }),
{
}

/// The remark on tokens names the endpoint where there is one, and no secret.
pub proof fn law_auth_note(
    endpoint: Seq<char>,
    client_id: Seq<char>,
    client_secret: Seq<char>,
)
    ensures
        auth_note_view(AuthView::OAuth { endpoint, client_id, client_secret })
            == "Authenticated via OAuth2 at "@ + endpoint,
        auth_note_view(AuthView::Open)
            == "No auth configured — MCP requests will be sent without Authorization header."@,
{
}

/// Providers are listed in order and one by one: behind a list, a comma and a
/// text without one add the text without the white space around it, unless
/// nothing is left of it then. Without a list there are none.
pub proof fn law_one_more_provider(list: Seq<char>, name: Seq<char>)
    requires
        !name.contains(','),
    ensures
        provider_order_view(None).len() == 0,
        text::trimmed(name).len() == 0 ==> provider_order_view(Some(name)).len() == 0,
        text::trimmed(name).len() > 0 ==> provider_order_view(Some(name)) == seq![
            text::trimmed(name),
        ],
        text::trimmed(name).len() == 0 ==> provider_order_view(Some(list.push(',') + name))
            == provider_order_view(Some(list)),
        text::trimmed(name).len() > 0 ==> provider_order_view(Some(list.push(',') + name))
            == provider_order_view(Some(list)).push(text::trimmed(name)),
{
    reveal_with_fuel(trimmed_texts, 2);
    let nothing = Seq::<char>::empty();
    assert(nothing + name =~= name);
    text::lemma_pieces_extend(nothing, name, ',');
    assert(text::pieces(nothing, ',') =~= seq![nothing]);
    assert(text::pieces(name, ',') =~= seq![name]);
    assert(seq![name].drop_last() =~= Seq::<Seq<char>>::empty());
    let longer = list.push(',');
    assert(longer.drop_last() =~= list);
    let before = text::pieces(list, ',');
    assert(text::pieces(longer, ',') == before.push(nothing));
    text::lemma_pieces_extend(longer, name, ',');
    let all = text::pieces(longer + name, ',');
    assert(all =~= before.push(name));
    assert(all.drop_last() =~= before);
    assert(provider_order_view(Some(name)) =~= trimmed_texts(seq![name]));
}

/// The remark on the model names the base URL, the model and the providers in
/// order, where any are named.
pub proof fn law_model_note(base_url: Seq<char>, model: Seq<char>, order: Seq<Seq<char>>)
    ensures
        order.len() == 0 ==> model_note_view(base_url, model, order) == "Using OpenRouter (base="@
            + base_url + ", model="@ + model + ", "@ + "auto-route"@ + ")."@,
        order.len() > 0 ==> model_note_view(base_url, model, order) == "Using OpenRouter (base="@
            + base_url + ", model="@ + model + ", "@ + ("provider order=["@ + text::joined(
            order,
            ","@,
        ) + "]"@) + ")."@,
{
}

/// Which chat is asked for. With a message it is one turn with just that
/// message, on the log that is named, or else on that of the session; and a
/// message with neither is refused. Without a message it is an interactive
/// chat, and a log that is named is refused.
pub proof fn law_mode(
    prompt: Seq<char>,
    path: Seq<char>,
    id: Seq<char>,
    session_id: Option<Seq<char>>,
    dir: Seq<char>,
)
    ensures
        mode_view(Some(prompt), Some(path), session_id, dir) == Ok::<ModeView, Seq<char>>(
            ModeView::OneShot { prompt, history: path },
        ),
        dir.len() > 0 && dir.last() != '/' ==> mode_view(Some(prompt), None, Some(id), dir) == Ok::<
            ModeView,
            Seq<char>,
        >(ModeView::OneShot { prompt, history: dir.push('/') + ("session-"@ + id + ".jsonl"@) }),
        mode_view(Some(prompt), None, None, dir) == Err::<ModeView, Seq<char>>(
            "--prompt requires --from-log or --session-id."@,
        ),
        mode_view(None, Some(path), session_id, dir) == Err::<ModeView, Seq<char>>(
            "--from-log requires --prompt (one-shot mode). For REPL history reuse, pass --session-id instead."@,
        ),
        mode_view(None, None, session_id, dir) == Ok::<ModeView, Seq<char>>(ModeView::Interactive),
{
}

/// The remark on the earlier conversation has the number of its messages and
/// where it was read, where it was.
pub proof fn law_history_note(n: nat, path: Seq<char>)
    ensures
        history_note_view(Some(n), path) == "Loaded "@ + text::decimal(n) + " messages from "@
            + path,
        history_note_view(None, path) == "Starting from empty history."@,
{
}

/// The value of what was asked for has all that was.
pub proof fn law_choices_seen(s: String, t: String, u: String)
    ensures
        Mode::Interactive@ == ModeView::Interactive,
        (Mode::OneShot { prompt: s, history: t })@ == (ModeView::OneShot {
            prompt: s@,
            history: t@,
        }),
        Auth::Open@ == AuthView::Open,
        (Auth::OAuth { endpoint: s, client_id: t, client_secret: u })@ == (AuthView::OAuth {
            endpoint: s@,
            client_id: t@,
            client_secret: u@,
        }),
{
}

} // verus!
