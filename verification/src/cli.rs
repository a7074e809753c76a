//! What the operator asks for: flags, the environment, and the lines that
//! answer.
use crate::character::{entry, find, normalized, portrait_url, Character, CHARACTERS};
use crate::db::snapshot::{ListedView, StoredAccount};
use crate::log::{says_yes, truthy};
use crate::text::{
    glue, decimal, fill, filled, join_path, joined, opt_str, opt_view, write_u64,
};
use vstd::prelude::*;

verus! {

/// The application that is used where no other is named: the community's, with
/// logo and portraits.
pub const DEFAULT_APP_ID: &'static str = "1546176429048463360";

/// The official application of the game, for the companion slot.
pub const OFFICIAL_APP_ID: &'static str = "1247227126416146462";

/// The shortest time between two updates, in seconds.
pub const MIN_INTERVAL: u64 = 5;

/// The shortest time between two scans, in seconds.
pub const MIN_DETECT_INTERVAL: u64 = 1;

/// Whether something is switched on: by its flag, or by its variable.
pub fn env_flag(flag: bool, value: Option<&str>) -> (r: bool)
    ensures
        r == (flag || says_yes(opt_str(value))),
{
    flag || truthy(value)
}

/// The first of two inputs that is not blank, without the white space around
/// it.
pub open spec fn first_filled(flag: Option<Seq<char>>, env: Option<Seq<char>>) -> Option<
    Seq<char>,
> {
    match filled(flag) {
        Some(flag) => Some(flag),
        None => filled(env),
    }
}

/// The character that was asked for: the flag wins, the variable fills in, and
/// blank means unset.
pub fn character_input(flag: Option<&str>, env: Option<&str>) -> (r: Option<String>)
    ensures
        opt_view(r) == first_filled(opt_str(flag), opt_str(env)),
{
    match fill(flag) {
        Some(flag) => Some(flag),
        None => fill(env),
    }
}

/// What is told of a character that does not exist.
pub open spec fn unknown_character(input: Seq<char>) -> Seq<char> {
    "unknown character '"@ + input
        + "'; run --list-characters for valid names, publishing without an icon"@
}

/// Finds the character that was asked for. An unknown one is answered with a
/// warning and goes without an icon; a blank one is none.
pub fn resolve_character(input: Option<&str>) -> (r: (Option<Character>, Option<String>))
    ensures
        match filled(opt_str(input)) {
            Some(name) => match r.0 {
                Some(character) => r.1 is None && exists|i: int|
                    0 <= i < CHARACTERS@.len() && character@ == #[trigger] entry(i) && entry(
                        i,
                    ).key == normalized(name),
                None => opt_view(r.1) == Some(unknown_character(name)) && forall|i: int|
                    0 <= i < CHARACTERS@.len() ==> (#[trigger] entry(i)).key != normalized(name),
            },
            None => r.0 is None && r.1 is None,
        },
{
    match fill(input) {
        Some(name) => match find(name.as_str()) {
            Some(character) => (Some(character), None),
            None => {
                let start = glue("unknown character '", name.as_str());
                (
                    None,
                    Some(
                        glue(
                            start.as_str(),
                            "'; run --list-characters for valid names, publishing without an icon",
                        ),
                    ),
                )
            },
        },
        None => (None, None),
    }
}

/// The application to use: the flag wins, then the variable unless blank, then
/// the default.
pub fn app_id(flag: Option<&str>, env: Option<&str>) -> (r: String)
    ensures
        r@ == match flag {
            Some(id) => id@,
            None => match filled(opt_str(env)) {
                Some(id) => id,
                None => DEFAULT_APP_ID@,
            },
        },
{
    match flag {
        Some(id) => id.to_owned(),
        None => match fill(env) {
            Some(id) => id,
            None => DEFAULT_APP_ID.to_owned(),
        },
    }
}

/// What is told of a portrait without a character.
pub const PORTRAIT_NEEDS_CHARACTER: &'static str =
    "--game-page-portraits needs --character; companion stays imageless";

/// What is told of a portrait without a companion.
pub const PORTRAIT_NEEDS_PAGE: &'static str = "--game-page-portraits needs --game-page; ignoring";

/// The address of the companion's portrait. It needs a character and the
/// companion slot; what is missing is told.
pub fn companion_portrait(wanted: bool, character: Option<&Character>, game_page: bool) -> (r: (
    Option<String>,
    Option<&'static str>,
))
    ensures
        if !wanted {
            r.0 is None && r.1 is None
        } else {
            match character {
                None => r.0 is None && opt_str(r.1) == Some(PORTRAIT_NEEDS_CHARACTER@),
                Some(character) => if game_page {
                    r.1 is None && opt_view(r.0) == Some(
                        crate::character::PORTRAIT_BASE_URL@ + "/"@ + character.file@ + ".png"@,
                    )
                } else {
                    r.0 is None && opt_str(r.1) == Some(PORTRAIT_NEEDS_PAGE@)
                },
            }
        },
{
    if !wanted {
        return (None, None);
    }
    match character {
        None => (None, Some(PORTRAIT_NEEDS_CHARACTER)),
        Some(character) => if game_page {
            (Some(portrait_url(character)), None)
        } else {
            (None, Some(PORTRAIT_NEEDS_PAGE))
        },
    }
}

/// Whether static text may be shown: where it was asked for, and where there
/// is nothing to read.
pub fn static_text(static_fallback: bool, no_database: bool) -> (r: bool)
    ensures
        r == (static_fallback || no_database),
{
    static_fallback || no_database
}

/// The seconds between two updates.
pub fn presence_seconds(interval: u64) -> (r: u64)
    ensures
        r == if interval < MIN_INTERVAL {
            MIN_INTERVAL
        } else {
            interval
        },
{
    if interval < MIN_INTERVAL {
        MIN_INTERVAL
    } else {
        interval
    }
}

/// The seconds between two scans.
pub fn detect_seconds(interval: u64) -> (r: u64)
    ensures
        r == if interval < MIN_DETECT_INTERVAL {
            MIN_DETECT_INTERVAL
        } else {
            interval
        },
{
    if interval < MIN_DETECT_INTERVAL {
        MIN_DETECT_INTERVAL
    } else {
        interval
    }
}

/// Seconds in nanoseconds.
pub fn nanos(seconds: u64) -> (r: u128)
    ensures
        r == seconds * 1_000_000_000,
{
    seconds as u128 * 1_000_000_000
}

/// Where the private copies and the pid file go under a runtime directory.
pub fn runtime_dir(base: &str) -> (r: String)
    ensures
        r@ == joined(base@, "wwrpc"@),
{
    join_path(base, "wwrpc")
}

/// What is told of a position that no stored account has.
pub open spec fn out_of_range(index: nat, stored: nat) -> Seq<char> {
    "account index "@ + decimal(index) + " out of range ("@ + decimal(stored) + " stored)"@
}

/// A warning when a position is pinned that no stored account has. It is only
/// told: every tick tries again.
pub fn index_warning(index: usize, stored: usize) -> (r: Option<String>)
    ensures
        opt_view(r) == if index == 0 || index > stored {
            Some(out_of_range(index as nat, stored as nat))
        } else {
            None
        },
{
    if index == 0 || index > stored {
        let start = glue("account index ", write_u64(index as u64).as_str());
        let middle = glue(glue(start.as_str(), " out of range (").as_str(), write_u64(
            stored as u64,
        ).as_str());
        Some(glue(middle.as_str(), " stored)"))
    } else {
        None
    }
}

/// The line of a stored account.
pub open spec fn account_text(account: ListedView) -> Seq<char> {
    let base = decimal(account.index) + ": "@ + account.region + ", Union "@ + account.level;
    let named = match account.nickname {
        Some(nickname) => base + " (login nickname: "@ + nickname + "?)"@,
        None => base,
    };
    if account.last_login {
        named + " [last launcher login]"@
    } else {
        named
    }
}

/// Writes the line of a stored account.
pub fn account_line(account: &StoredAccount) -> (r: String)
    ensures
        r@ == account_text(account@),
{
    let start = glue(write_u64(account.index as u64).as_str(), ": ");
    let place = glue(glue(start.as_str(), account.region.as_str()).as_str(), ", Union ");
    let base = glue(place.as_str(), account.level.as_str());
    let named: String = match &account.nickname {
        Some(nickname) => {
            let open = glue(base.as_str(), " (login nickname: ");
            glue(glue(open.as_str(), nickname.as_str()).as_str(), "?)")
        },
        None => base,
    };
    if account.last_login {
        glue(named.as_str(), " [last launcher login]")
    } else {
        named
    }
}

/// Writes the line of a character.
pub fn character_line(character: &Character) -> (r: String)
    ensures
        r@ == character.display@ + " ("@ + character.key@ + ")"@,
{
    let open = glue(character.display, " (");
    glue(glue(open.as_str(), character.key).as_str(), ")")
}

/// A flag wins over a variable: whatever the variable says, the flag's
/// character and application are the ones used.
pub proof fn flags_win(flag: Seq<char>, env: Option<Seq<char>>)
    requires
        crate::text::trimmed(flag).len() > 0,
    ensures
        first_filled(Some(flag), env) == Some(crate::text::trimmed(flag)),
{
}

/// A blank variable is an unset one.
pub proof fn blank_is_unset(flag: Option<Seq<char>>, env: Seq<char>)
    requires
        crate::text::trimmed(env).len() == 0,
    ensures
        first_filled(flag, Some(env)) == first_filled(flag, None),
{
}

/// Something is on by its flag or by a variable that says yes.
pub proof fn flags_and_variables_switch_on(
    flag: bool,
    value: Option<&str>,
    yes: bool,
    r: bool,
)
    requires
        call_ensures(env_flag, (flag, value), r),
        call_ensures(truthy, (value,), yes),
    ensures
        r <==> flag || yes,
{
}

/// The character that was asked for is the flag's unless it is blank, then the
/// variable's unless that is, without the white space around it.
pub proof fn first_input_counts(flag: Option<&str>, env: Option<&str>, r: Option<String>)
    requires
        call_ensures(character_input, (flag, env), r),
    ensures
        ({
            let by_flag = flag is Some && crate::text::trimmed(flag->Some_0@).len() > 0;
            let by_env = env is Some && crate::text::trimmed(env->Some_0@).len() > 0;
            &&& by_flag ==> r is Some && r->Some_0@ == crate::text::trimmed(flag->Some_0@)
            &&& !by_flag && by_env ==> r is Some && r->Some_0@ == crate::text::trimmed(
                env->Some_0@,
            )
            &&& !by_flag && !by_env ==> r is None
        }),
{
}

/// The application is the flag's as it is, then the variable's unless it is
/// blank, then the one built in.
pub proof fn applications_have_a_default(flag: Option<&str>, env: Option<&str>, r: String)
    requires
        call_ensures(app_id, (flag, env), r),
    ensures
        flag matches Some(id) ==> r@ == id@,
        flag is None && env is Some && crate::text::trimmed(env->Some_0@).len() > 0 ==> r@
            == crate::text::trimmed(env->Some_0@),
        flag is None && (env is None || crate::text::trimmed(env->Some_0@).len() == 0) ==> r@
            == "1546176429048463360"@,
{
}

/// An input finds its character or is warned of, never both; a blank one does
/// neither.
pub proof fn unknown_characters_are_warned_of(
    input: Option<&str>,
    name: &str,
    found: Option<Character>,
    r: (Option<Character>, Option<String>),
)
    requires
        call_ensures(resolve_character, (input,), r),
        input matches Some(input) ==> name@ == crate::text::trimmed(input@),
        call_ensures(find, (name,), found),
    ensures
        input is None || name@.len() == 0 ==> r.0 is None && r.1 is None,
        input is Some && name@.len() > 0 ==> {
            &&& r.0 is Some <==> found is Some
            &&& r.0 matches Some(character) ==> character@ == found->Some_0@ && r.1 is None
            &&& r.0 is None ==> r.1 is Some && r.1->Some_0@ == "unknown character '"@ + name@
                + "'; run --list-characters for valid names, publishing without an icon"@
        },
{
    if input is Some && name@.len() > 0 {
        if let (Some(a), Some(b)) = (r.0, found) {
            let i = choose|i: int|
                0 <= i < CHARACTERS@.len() && a@ == #[trigger] entry(i) && entry(i).key
                    == normalized(name@);
            crate::character::input_finds_its_character(name@, i);
            assert(crate::character::found(name@) == Some(a@));
        }
    }
}

/// A portrait needs to be wanted, a character, and the companion slot; what is
/// missing is told, the character first.
pub proof fn portraits_need_a_character(
    wanted: bool,
    character: Option<&Character>,
    game_page: bool,
    url: String,
    r: (Option<String>, Option<&'static str>),
)
    requires
        call_ensures(companion_portrait, (wanted, character, game_page), r),
        character matches Some(character) ==> call_ensures(portrait_url, (character,), url),
    ensures
        r.0 is Some <==> wanted && character is Some && game_page,
        r.0 matches Some(portrait) ==> portrait@ == url@,
        r.1 is Some <==> wanted && (character is None || !game_page),
        r.1 matches Some(told) ==> told@ == if character is None {
            "--game-page-portraits needs --character; companion stays imageless"@
        } else {
            "--game-page-portraits needs --game-page; ignoring"@
        },
{
}

/// Static text may show where it was asked for or there is nothing to read;
/// the times between two updates and two scans are at least five seconds and
/// one; and a second has a billion nanoseconds.
pub proof fn times_have_a_least(
    asked: (bool, bool),
    interval: u64,
    shows: bool,
    update: u64,
    scan: u64,
    time: u128,
)
    requires
        call_ensures(static_text, (asked.0, asked.1), shows),
        call_ensures(presence_seconds, (interval,), update),
        call_ensures(detect_seconds, (interval,), scan),
        call_ensures(nanos, (interval,), time),
    ensures
        shows <==> asked.0 || asked.1,
        interval >= 5 ==> update == interval,
        interval < 5 ==> update == 5,
        interval >= 1 ==> scan == interval,
        interval == 0 ==> scan == 1,
        time == interval * 1000000000,
{
}

/// What belongs to a run lies in a directory of this program.
pub proof fn runs_have_a_directory(base: &str, r: String)
    requires
        call_ensures(runtime_dir, (base,), r),
    ensures
        r@ == joined(base@, "wwrpc"@),
{
}

/// A position is warned of exactly when no stored account has it.
pub proof fn bad_positions_are_warned_of(index: usize, stored: usize, r: Option<String>)
    requires
        call_ensures(index_warning, (index, stored), r),
    ensures
        r is None <==> 1 <= index <= stored,
        r matches Some(told) ==> told@ == "account index "@ + decimal(index as nat)
            + " out of range ("@ + decimal(stored as nat) + " stored)"@,
{
}

/// The line of a stored account: position, region and level, then the nickname
/// and the mark of the last login where there are any.
pub proof fn account_lines_read(account: StoredAccount, r: String)
    requires
        call_ensures(account_line, (&account,), r),
    ensures
        ({
            let base = decimal(account.index as nat) + ": "@ + account.region@ + ", Union "@
                + account.level@;
            &&& account.nickname is None && !account.last_login ==> r@ == base
            &&& account.nickname is None && account.last_login ==> r@ == base
                + " [last launcher login]"@
            &&& account.nickname matches Some(name) ==> (!account.last_login ==> r@ == base
                + " (login nickname: "@ + name@ + "?)"@)
            &&& account.nickname matches Some(name) ==> (account.last_login ==> r@ == base
                + " (login nickname: "@ + name@ + "?)"@ + " [last launcher login]"@)
        }),
{
}

/// The line of a character: its name, and the key that finds it.
pub proof fn character_lines_read(character: Character, r: String)
    requires
        call_ensures(character_line, (&character,), r),
    ensures
        r@ == character.display@ + " ("@ + character.key@ + ")"@,
{
}

} // verus!
