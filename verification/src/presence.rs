//! What a card says, which card a tick decides for, and when it is sent
//! again.
use crate::character::{Character, CharacterView};
use crate::db::triage::{InfoView, PlayerInfo};
use crate::json::{object_is_readable, object_of, pairs_of, put, Json, Tree};
use crate::text::{glue, decimal, decimal_int, opt_str, same, write_u64};
use vstd::prelude::*;

verus! {

/// How many ticks with the same card are skipped before it is sent again, so
/// that a connection that died silently is noticed.
pub const HEARTBEAT_EVERY_TICKS: u32 = 12;

/// The text of a card without data.
pub const STATIC_TEXT: &'static str = "Exploring SOL-III";

/// The name of the game, as hover text.
pub const GAME_NAME: &'static str = "Wuthering Waves";

/// The key of the game's logo.
pub const LOGO: &'static str = "logo";

/// What stands between the bits of a hover text.
pub const SEPARATOR: &'static str = " • ";

/// What a tick decided. `Silent` means: clear once and stay quiet, so that
/// game detection owns the slot.
#[derive(Debug, PartialEq, Eq)]
pub enum Publish {
    Rich(Json),
    NamedStatic(Json),
    Static(Json),
    Silent,
}

/// What a tick decided, as data.
pub enum PublishView {
    Rich(Tree),
    NamedStatic(Tree),
    Static(Tree),
    Silent,
}

impl View for Publish {
    type V = PublishView;

    open spec fn view(&self) -> PublishView {
        match self {
            Publish::Rich(card) => PublishView::Rich(card@),
            Publish::NamedStatic(card) => PublishView::NamedStatic(card@),
            Publish::Static(card) => PublishView::Static(card@),
            Publish::Silent => PublishView::Silent,
        }
    }
}

impl PublishView {
    /// The card to send, if any.
    pub open spec fn card(self) -> Option<Tree> {
        match self {
            PublishView::Rich(card) => Some(card),
            PublishView::NamedStatic(card) => Some(card),
            PublishView::Static(card) => Some(card),
            PublishView::Silent => None,
        }
    }

    /// The tier of the decision.
    pub open spec fn tier(self) -> Tier {
        match self {
            PublishView::Rich(_) => Tier::Rich,
            PublishView::NamedStatic(_) => Tier::NamedStatic,
            PublishView::Static(_) => Tier::Static,
            PublishView::Silent => Tier::Silent,
        }
    }
}

/// How much a decision shows.
#[derive(Clone, Copy, Debug, PartialEq, Eq)]
pub enum Tier {
    Rich,
    NamedStatic,
    Static,
    Silent,
}

impl Tier {
    /// The tier in one word.
    pub open spec fn word(self) -> Seq<char> {
        match self {
            Tier::Rich => "rich"@,
            Tier::NamedStatic => "named-static"@,
            Tier::Static => "static"@,
            Tier::Silent => "silent"@,
        }
    }

    /// The tier in one word, for the log.
    pub fn name(self) -> (r: &'static str)
        ensures
            r@ == self.word(),
    {
        match self {
            Tier::Rich => "rich",
            Tier::NamedStatic => "named-static",
            Tier::Static => "static",
            Tier::Silent => "silent",
        }
    }
}

impl Publish {
    /// The card to send; nothing for silence.
    pub fn into_activity(self) -> (r: Option<Json>)
        ensures
            self@.card() == opt_json(r),
    {
        match self {
            Publish::Rich(card) => Some(card),
            Publish::NamedStatic(card) => Some(card),
            Publish::Static(card) => Some(card),
            Publish::Silent => None,
        }
    }
}

/// The tier of a decision.
pub fn tier_of(publish: &Publish) -> (r: Tier)
    ensures
        r == publish@.tier(),
{
    match publish {
        Publish::Rich(_) => Tier::Rich,
        Publish::NamedStatic(_) => Tier::NamedStatic,
        Publish::Static(_) => Tier::Static,
        Publish::Silent => Tier::Silent,
    }
}

/// The tier of a decision in one word, for the log.
pub fn tier_name(publish: &Publish) -> (r: &'static str)
    ensures
        r@ == publish@.tier().word(),
{
    tier_of(publish).name()
}

/// A yes or no, as the log writes it.
pub open spec fn yes_text(yes: bool) -> Seq<char> {
    if yes {
        "true"@
    } else {
        "false"@
    }
}

/// A yes or no, as the log writes it.
fn yes_word(yes: bool) -> (r: &'static str)
    ensures
        r@ == yes_text(yes),
{
    if yes {
        "true"
    } else {
        "false"
    }
}

/// What a decision was made from: whether there are data, a name and a login,
/// whether static text was asked for, and the key of a character. No value of
/// an account is in it.
pub open spec fn inputs_text(
    data: bool,
    named: bool,
    login: bool,
    static_text: bool,
    character: Option<Seq<char>>,
) -> Seq<char> {
    "(level data: "@ + yes_text(data) + ", name: "@ + yes_text(named) + ", login known: "@
        + yes_text(login) + ", static flag: "@ + yes_text(static_text) + ", character: "@ + (
    match character {
        Some(key) => key,
        None => "none"@,
    }) + ")"@
}

/// Writes what a decision was made from.
pub fn tier_inputs(
    data: bool,
    named: bool,
    login: bool,
    static_text: bool,
    character: Option<&str>,
) -> (r: String)
    ensures
        r@ == inputs_text(data, named, login, static_text, opt_str(character)),
{
    let key: &str = match character {
        Some(key) => key,
        None => "none",
    };
    let a = glue(glue("(level data: ", yes_word(data)).as_str(), ", name: ");
    let b = glue(glue(a.as_str(), yes_word(named)).as_str(), ", login known: ");
    let c = glue(glue(b.as_str(), yes_word(login)).as_str(), ", static flag: ");
    let d = glue(glue(c.as_str(), yes_word(static_text)).as_str(), ", character: ");
    glue(glue(d.as_str(), key).as_str(), ")")
}

/// What is told of a change of tier, with what the decision was made from.
pub fn tier_change(before: Option<Tier>, after: Tier, inputs: &str) -> (r: String)
    ensures
        r@ == "presence tier: "@ + (match before {
            Some(tier) => tier.word(),
            None => "none"@,
        }) + " -> "@ + after.word() + " "@ + inputs@,
{
    let from: &str = match before {
        Some(tier) => tier.name(),
        None => "none",
    };
    let change = glue(glue(glue("presence tier: ", from).as_str(), " -> ").as_str(), after.name());
    glue(glue(change.as_str(), " ").as_str(), inputs)
}

/// What is known of the session beside the data: each source on its own.
#[derive(Clone, Copy, Debug)]
pub struct LiveContext<'a> {
    /// Whether the live login is known.
    pub uid_known: bool,
    /// The display name of that login, if any.
    pub display_name: Option<&'a str>,
    /// The game version, if any.
    pub version: Option<&'a str>,
}

/// The members of a card.
pub open spec fn card_pairs(
    details: Seq<char>,
    state: Option<Seq<char>>,
    assets: Option<Tree>,
    start_ms: int,
) -> Seq<(Seq<char>, Tree)> {
    let base = seq![
        ("details"@, Tree::Text(details)),
        (
            "timestamps"@,
            Tree::Object(object_of(seq![("start"@, Tree::Number(decimal_int(start_ms)))])),
        ),
        ("instance"@, Tree::Bool(false)),
    ];
    let stated = match state {
        Some(state) => base.push(("state"@, Tree::Text(state))),
        None => base,
    };
    match assets {
        Some(assets) => stated.push(("assets"@, assets)),
        None => stated,
    }
}

/// A card: details, the start of the session, and, where there are any, a
/// state and pictures.
pub open spec fn card(
    details: Seq<char>,
    state: Option<Seq<char>>,
    assets: Option<Tree>,
    start_ms: int,
) -> Tree {
    Tree::Object(object_of(card_pairs(details, state, assets, start_ms)))
}

/// A card says what it was made from: each part stands under its own name,
/// and a part that is missing leaves no name behind.
pub proof fn card_says(
    details: Seq<char>,
    state: Option<Seq<char>>,
    assets: Option<Tree>,
    start_ms: int,
)
    ensures
        ({
            let it = card(details, state, assets, start_ms);
            &&& it.member("details"@) == Some(Tree::Text(details))
            &&& it.member("state"@) == match state {
                Some(state) => Some(Tree::Text(state)),
                None => None,
            }
            &&& it.member("assets"@) == assets
            &&& it.member("instance"@) == Some(Tree::Bool(false))
            &&& it.member("timestamps"@) matches Some(times) && times.member("start"@) == Some(
                Tree::Number(decimal_int(start_ms)),
            )
        }),
{
    reveal_strlit("details");
    reveal_strlit("timestamps");
    reveal_strlit("instance");
    reveal_strlit("state");
    reveal_strlit("assets");
    let pairs = card_pairs(details, state, assets, start_ms);
    assert("details"@.len() == 7 && "timestamps"@.len() == 10 && "instance"@.len() == 8
        && "state"@.len() == 5 && "assets"@.len() == 6);
    assert(pairs[0].0 == "details"@);
    assert(pairs[1].0 == "timestamps"@);
    assert(pairs[2].0 == "instance"@);
    assert(pairs.len() == 5 ==> pairs[3].0 == "state"@ && pairs[4].0 == "assets"@);
    assert(pairs.len() == 4 ==> pairs[3].0 == "state"@ || pairs[3].0 == "assets"@);
    assert(pairs.len() <= 5);
    let times = seq![("start"@, Tree::Number(decimal_int(start_ms)))];
    crate::json::object_of_last(times, 0);
    crate::json::object_of_last(pairs, 0);
    crate::json::object_of_last(pairs, 1);
    crate::json::object_of_last(pairs, 2);
    if pairs.len() > 3 {
        crate::json::object_of_last(pairs, 3);
    }
    if pairs.len() > 4 {
        crate::json::object_of_last(pairs, 4);
    }
    crate::json::object_of_names(pairs, "state"@);
    crate::json::object_of_names(pairs, "assets"@);
}

/// Cards of one session have the same start, whatever else they say.
pub proof fn cards_share_the_start(
    details: Seq<char>,
    state: Option<Seq<char>>,
    first: Option<Tree>,
    second: Option<Tree>,
    start_ms: int,
)
    ensures
        card(details, state, first, start_ms).member("timestamps"@) == card(
            details,
            state,
            second,
            start_ms,
        ).member("timestamps"@),
{
    start_stands(details, state, first, start_ms);
    start_stands(details, state, second, start_ms);
}

/// The start of a card, on its own.
pub open spec fn start_tree(start_ms: int) -> Tree {
    Tree::Object(object_of(seq![("start"@, Tree::Number(decimal_int(start_ms)))]))
}

proof fn start_stands(
    details: Seq<char>,
    state: Option<Seq<char>>,
    assets: Option<Tree>,
    start_ms: int,
)
    ensures
        card(details, state, assets, start_ms).member("timestamps"@) == Some(start_tree(start_ms)),
{
    reveal_strlit("timestamps");
    reveal_strlit("instance");
    reveal_strlit("state");
    reveal_strlit("assets");
    let pairs = card_pairs(details, state, assets, start_ms);
    assert("timestamps"@.len() == 10 && "instance"@.len() == 8 && "state"@.len() == 5
        && "assets"@.len() == 6);
    assert(pairs[2].0 == "instance"@);
    assert(pairs.len() == 5 ==> pairs[3].0 == "state"@ && pairs[4].0 == "assets"@);
    assert(pairs.len() == 4 ==> pairs[3].0 == "state"@ || pairs[3].0 == "assets"@);
    assert(pairs[1] == ("timestamps"@, start_tree(start_ms)));
    crate::json::object_of_last(pairs, 1);
}

/// A document that may be missing.
pub open spec fn opt_json(json: Option<Json>) -> Option<Tree> {
    match json {
        Some(json) => Some(json@),
        None => None,
    }
}

/// Builds a card.
fn build(details: &str, state: Option<&str>, assets: Option<Json>, start_ms: i64) -> (r: Json)
    ensures
        r@ == card(
            details@,
            opt_str(state),
            opt_json(assets),
            start_ms as int,
        ),
{
    let mut times: Vec<(String, Json)> = Vec::new();
    assert(pairs_of(times) =~= Seq::<(Seq<char>, Tree)>::empty());
    put(&mut times, "start", Json::integer(start_ms));
    assert(pairs_of(times) =~= seq![("start"@, Tree::Number(decimal_int(start_ms as int)))]);
    let mut members: Vec<(String, Json)> = Vec::new();
    assert(pairs_of(members) =~= Seq::<(Seq<char>, Tree)>::empty());
    put(&mut members, "details", Json::string(details));
    put(&mut members, "timestamps", Json::Object(times));
    put(&mut members, "instance", Json::Bool(false));
    if let Some(state) = state {
        put(&mut members, "state", Json::string(state));
    }
    let ghost shown = opt_json(assets);
    if let Some(assets) = assets {
        put(&mut members, "assets", assets);
    }
    assert(pairs_of(members) =~= card_pairs(
        details@,
        opt_str(state),
        shown,
        start_ms as int,
    ));
    Json::Object(members)
}

/// The pictures of a card of this application: the logo, and, where there is
/// one, a small picture with its hover text.
pub open spec fn pictures(small: Option<(Seq<char>, Seq<char>)>) -> Tree {
    Tree::Object(object_of(picture_pairs(small)))
}

/// The members of the pictures.
pub open spec fn picture_pairs(small: Option<(Seq<char>, Seq<char>)>) -> Seq<(Seq<char>, Tree)> {
    let base = seq![
        ("large_image"@, Tree::Text(LOGO@)),
        ("large_text"@, Tree::Text(GAME_NAME@)),
    ];
    match small {
        Some((image, text)) => base.push(("small_image"@, Tree::Text(image))).push(
            ("small_text"@, Tree::Text(text)),
        ),
        None => base,
    }
}

/// The pictures of a card are what they were made from.
pub proof fn pictures_show(small: Option<(Seq<char>, Seq<char>)>)
    ensures
        pictures(small).member("large_image"@) == Some(Tree::Text(LOGO@)),
        pictures(small).member("large_text"@) == Some(Tree::Text(GAME_NAME@)),
        match small {
            Some((image, text)) => pictures(small).member("small_image"@) == Some(
                Tree::Text(image),
            ) && pictures(small).member("small_text"@) == Some(Tree::Text(text)),
            None => pictures(small).member("small_image"@) is None && pictures(small).member(
                "small_text"@,
            ) is None,
        },
{
    reveal_strlit("large_image");
    reveal_strlit("large_text");
    reveal_strlit("small_image");
    reveal_strlit("small_text");
    let pairs = picture_pairs(small);
    assert("large_image"@[6] != "large_text"@[6]);
    assert("small_image"@[6] != "small_text"@[6]);
    assert("large_image"@[0] != "small_image"@[0]);
    assert("large_text"@[0] != "small_text"@[0]);
    crate::json::object_of_last(pairs, 0);
    crate::json::object_of_last(pairs, 1);
    if pairs.len() > 2 {
        crate::json::object_of_last(pairs, 2);
        crate::json::object_of_last(pairs, 3);
    }
    crate::json::object_of_names(pairs, "small_image"@);
    crate::json::object_of_names(pairs, "small_text"@);
    assert(pairs[0].0 == "large_image"@);
    assert(pairs[1].0 == "large_text"@);
}

/// Builds the pictures of a card.
fn build_pictures(small: Option<(&str, &str)>) -> (r: Json)
    ensures
        r@ == pictures(
            match small {
                Some((image, text)) => Some((image@, text@)),
                None => None,
            },
        ),
{
    let mut members: Vec<(String, Json)> = Vec::new();
    assert(pairs_of(members) =~= Seq::<(Seq<char>, Tree)>::empty());
    put(&mut members, "large_image", Json::string(LOGO));
    put(&mut members, "large_text", Json::string(GAME_NAME));
    if let Some((image, text)) = small {
        put(&mut members, "small_image", Json::string(image));
        put(&mut members, "small_text", Json::string(text));
    }
    assert(pairs_of(members) =~= picture_pairs(
        match small {
            Some((image, text)) => Some((image@, text@)),
            None => None,
        },
    ));
    Json::Object(members)
}

/// Bits of a hover text, with a separator between them.
pub open spec fn joined(bits: Seq<Seq<char>>) -> Seq<char>
    decreases bits.len(),
{
    if bits.len() == 0 {
        Seq::empty()
    } else if bits.len() == 1 {
        bits[0]
    } else {
        joined(bits.drop_last()) + SEPARATOR@ + bits.last()
    }
}

/// What a list of bits holds.
pub open spec fn bit_views(bits: Seq<String>) -> Seq<Seq<char>> {
    Seq::new(bits.len(), |i: int| bits[i]@)
}

/// Joins the bits of a hover text.
fn join_bits(bits: &Vec<String>) -> (r: String)
    ensures
        r@ == joined(bit_views(bits@)),
{
    let ghost all = bit_views(bits@);
    let mut text = String::new();
    let mut i: usize = 0;
    assert(all.take(0) == Seq::<Seq<char>>::empty());
    while i < bits.len()
        invariant
            i <= bits@.len(),
            all == bit_views(bits@),
            text@ == joined(all.take(i as int)),
        decreases bits@.len() - i,
    {
        assert(all.take(i + 1).drop_last() == all.take(i as int));
        assert(all.take(i + 1).last() == bits@[i as int]@);
        if i == 0 {
            text = bits[0].clone();
        } else {
            text = glue(glue(text.as_str(), SEPARATOR).as_str(), bits[i].as_str());
        }
        i += 1;
    }
    assert(all.take(i as int) == all);
    text
}

/// A game version, as a bit.
pub open spec fn version_bit(version: Seq<char>) -> Seq<char> {
    "v"@ + version
}

/// The bits that come with data: quests and version, as far as known.
pub open spec fn info_bits(quests: Option<nat>, version: Option<Seq<char>>) -> Seq<Seq<char>> {
    let first = match quests {
        Some(n) => seq![decimal(n) + " quests"@],
        None => Seq::empty(),
    };
    match version {
        Some(version) => first.push(version_bit(version)),
        None => first,
    }
}

/// The small picture: a character owns it, and its name leads the hover text.
/// Without one it is the logo, where there is anything to say.
pub open spec fn small_picture(character: Option<CharacterView>, bits: Seq<Seq<char>>) -> Option<
    (Seq<char>, Seq<char>),
> {
    match character {
        Some(character) => Some((character.asset, joined(seq![character.display] + bits))),
        None => if bits.len() > 0 {
            Some((LOGO@, joined(bits)))
        } else {
            None
        },
    }
}

/// A character that may be missing.
pub open spec fn opt_character(character: Option<&Character>) -> Option<CharacterView> {
    match character {
        Some(character) => Some(character@),
        None => None,
    }
}

/// Builds the pictures of a card from a character and bits.
fn build_small(character: Option<&Character>, bits: Vec<String>) -> (r: Json)
    ensures
        r@ == pictures(small_picture(opt_character(character), bit_views(bits@))),
{
    match character {
        Some(character) => {
            let mut all: Vec<String> = Vec::new();
            all.push(character.display.to_owned());
            let mut i: usize = 0;
            while i < bits.len()
                invariant
                    i <= bits@.len(),
                    bit_views(all@) == seq![character.display@] + bit_views(bits@).take(i as int),
                decreases bits@.len() - i,
            {
                let ghost before = bit_views(all@);
                all.push(bits[i].clone());
                assert(bit_views(all@) =~= before.push(bits@[i as int]@));
                assert(bit_views(bits@).take(i + 1) =~= bit_views(bits@).take(i as int).push(
                    bits@[i as int]@,
                ));
                i += 1;
            }
            assert(bit_views(bits@).take(i as int) == bit_views(bits@));
            let text = join_bits(&all);
            build_pictures(Some((character.asset, text.as_str())))
        },
        None => if bits.len() > 0 {
            let text = join_bits(&bits);
            build_pictures(Some((LOGO, text.as_str())))
        } else {
            build_pictures(None)
        },
    }
}

/// The bits that come with data.
fn build_bits(quests: Option<usize>, version: Option<&str>) -> (r: Vec<String>)
    ensures
        bit_views(r@) == info_bits(crate::db::triage::opt_nat(quests), opt_str(version)),
{
    let mut bits: Vec<String> = Vec::new();
    if let Some(n) = quests {
        bits.push(glue(write_u64(n as u64).as_str(), " quests"));
    }
    if let Some(version) = version {
        bits.push(glue("v", version));
    }
    assert(bit_views(bits@) =~= info_bits(crate::db::triage::opt_nat(quests), opt_str(version)));
    bits
}

/// The companion card, for the official application: the same details and
/// state, and a portrait by its address where one was asked for.
pub open spec fn official_card(
    start_ms: int,
    details: Seq<char>,
    state: Seq<char>,
    portrait: Option<Seq<char>>,
) -> Tree {
    card(
        details,
        if state.len() > 0 {
            Some(state)
        } else {
            None
        },
        match portrait {
            Some(portrait) => Some(
                Tree::Object(object_of(seq![("large_image"@, Tree::Text(portrait))])),
            ),
            None => None,
        },
        start_ms,
    )
}

/// Builds the companion card.
pub fn official_activity(start_ms: i64, details: &str, state: &str, portrait: Option<&str>) -> (r:
    Json)
    ensures
        r@ == official_card(start_ms as int, details@, state@, opt_str(portrait)),
{
    let shown: Option<&str> = if state.is_empty() {
        None
    } else {
        Some(state)
    };
    let assets: Option<Json> = match portrait {
        Some(portrait) => {
            let mut members: Vec<(String, Json)> = Vec::new();
            assert(pairs_of(members) =~= Seq::<(Seq<char>, Tree)>::empty());
            put(&mut members, "large_image", Json::string(portrait));
            assert(pairs_of(members) =~= seq![("large_image"@, Tree::Text(portrait@))]);
            Some(Json::Object(members))
        },
        None => None,
    };
    build(details, shown, assets, start_ms)
}

/// The card without data.
pub open spec fn static_card(start_ms: int) -> Tree {
    card(STATIC_TEXT@, None, Some(pictures(None)), start_ms)
}

/// Builds the card without data.
pub fn static_activity(start_ms: i64) -> (r: Json)
    ensures
        r@ == static_card(start_ms as int),
{
    build(STATIC_TEXT, None, Some(build_pictures(None)), start_ms)
}

/// The card of a login with a name and without data.
pub open spec fn named_card(
    start_ms: int,
    name: Seq<char>,
    version: Option<Seq<char>>,
    character: Option<CharacterView>,
) -> Tree {
    card(
        name,
        Some(STATIC_TEXT@),
        Some(pictures(small_picture(character, info_bits(None, version)))),
        start_ms,
    )
}

/// Builds the card of a login with a name and without data: all that it shows
/// is known of this login.
pub fn named_static_activity(
    start_ms: i64,
    name: &str,
    version: Option<&str>,
    character: Option<&Character>,
) -> (r: Json)
    ensures
        r@ == named_card(start_ms as int, name@, opt_str(version), opt_character(character)),
{
    let bits = build_bits(None, version);
    build(name, Some(STATIC_TEXT), Some(build_small(character, bits)), start_ms)
}

/// The name that a card with data shows: one that was asked for, else the
/// display name.
pub open spec fn shown_name(info: InfoView, player_name: Option<Seq<char>>) -> Option<Seq<char>> {
    match player_name {
        Some(name) => Some(name),
        None => info.display_name,
    }
}

/// The card with data: the name, or the level without one; level and region;
/// quests and version on hover.
pub open spec fn rich_card(
    start_ms: int,
    info: InfoView,
    player_name: Option<Seq<char>>,
    character: Option<CharacterView>,
) -> Tree {
    card(
        match shown_name(info, player_name) {
            Some(name) => name,
            None => "Union Level "@ + info.union_level,
        },
        Some("Lv. "@ + info.union_level + " | Region: "@ + info.region),
        Some(pictures(small_picture(character, info_bits(info.quests_done, info.game_version)))),
        start_ms,
    )
}

/// Builds the card with data.
pub fn db_activity(
    start_ms: i64,
    info: &PlayerInfo,
    player_name: Option<&str>,
    character: Option<&Character>,
) -> (r: Json)
    ensures
        r@ == rich_card(start_ms as int, info@, opt_str(player_name), opt_character(character)),
{
    let details: String = match player_name {
        Some(name) => name.to_owned(),
        None => match &info.display_name {
            Some(name) => name.clone(),
            None => glue("Union Level ", info.union_level.as_str()),
        },
    };
    let level = glue("Lv. ", info.union_level.as_str());
    let state = glue(glue(level.as_str(), " | Region: ").as_str(), info.region.as_str());
    let bits = build_bits(info.quests_done, crate::text::opt_borrow(&info.game_version));
    build(
        details.as_str(),
        Some(state.as_str()),
        Some(build_small(character, bits)),
        start_ms,
    )
}

/// What a tick decides for. Data win; without them a login with a name still
/// shows; without a name there is static text where it was asked for, and
/// silence else.
pub open spec fn decision(
    info: Option<InfoView>,
    static_fallback: bool,
    start_ms: int,
    player_name: Option<Seq<char>>,
    character: Option<CharacterView>,
    uid_known: bool,
    display_name: Option<Seq<char>>,
    version: Option<Seq<char>>,
) -> PublishView {
    let name = match player_name {
        Some(name) => Some(name),
        None => display_name,
    };
    match info {
        Some(info) => PublishView::Rich(rich_card(start_ms, info, player_name, character)),
        None => match name {
            Some(name) if uid_known => PublishView::NamedStatic(
                named_card(start_ms, name, version, character),
            ),
            _ => if static_fallback {
                PublishView::Static(static_card(start_ms))
            } else {
                PublishView::Silent
            },
        },
    }
}

/// Decides what a tick publishes.
pub fn decide_publish(
    info: Option<&PlayerInfo>,
    static_fallback: bool,
    start_ms: i64,
    player_name: Option<&str>,
    character: Option<&Character>,
    live: LiveContext<'_>,
) -> (r: Publish)
    ensures
        r@ == decision(
            match info {
                Some(info) => Some(info@),
                None => None,
            },
            static_fallback,
            start_ms as int,
            opt_str(player_name),
            opt_character(character),
            live.uid_known,
            opt_str(live.display_name),
            opt_str(live.version),
        ),
{
    if let Some(info) = info {
        return Publish::Rich(db_activity(start_ms, info, player_name, character));
    }
    let name: Option<&str> = match player_name {
        Some(name) => Some(name),
        None => live.display_name,
    };
    match name {
        Some(name) if live.uid_known => Publish::NamedStatic(
            named_static_activity(start_ms, name, live.version, character),
        ),
        _ => if static_fallback {
            Publish::Static(static_activity(start_ms))
        } else {
            Publish::Silent
        },
    }
}

/// Whether play moved from one known account to another.
pub open spec fn switched(previous: Option<Seq<char>>, current: Option<Seq<char>>) -> bool {
    match (previous, current) {
        (Some(a), Some(b)) => a != b,
        _ => false,
    }
}

/// Tells whether play moved from one known account to another. Unknown on
/// either side is never a switch.
pub fn account_switched(previous: Option<&str>, current: Option<&str>) -> (r: bool)
    ensures
        r == switched(opt_str(previous), opt_str(current)),
{
    match (previous, current) {
        (Some(a), Some(b)) => !same(a, b),
        _ => false,
    }
}

/// Whether a card is sent: it is the first, or another one, or the heartbeat
/// is due.
pub open spec fn resent(last: Option<Seq<char>>, body: Seq<char>, streak: nat) -> bool {
    last != Some(body) || streak >= HEARTBEAT_EVERY_TICKS
}

/// Tells whether a card is sent, given the one sent last and how many ticks in
/// a row skipped it.
pub fn should_resend(last_sent: Option<&str>, body: &str, unchanged_streak: u32) -> (r: bool)
    ensures
        r == resent(opt_str(last_sent), body@, unchanged_streak as nat),
{
    match last_sent {
        Some(last) => !same(last, body) || unchanged_streak >= HEARTBEAT_EVERY_TICKS,
        None => true,
    }
}

/// Holds when the clock showed a time, in milliseconds since the epoch;
/// nothing when it was before.
pub uninterp spec fn clock_showed(millis: Option<u128>) -> bool;

/// Calls `std::time::SystemTime::elapsed` on the epoch, and gives its
/// milliseconds. Claims only that the clock showed that time.
#[verifier::external_body]
fn since_epoch() -> (r: Option<u128>)
    ensures
        clock_showed(r),
{
    std::time::UNIX_EPOCH.elapsed().ok().map(|age| age.as_millis())
}

/// A reading of the clock as a signed number of milliseconds; zero before the
/// epoch.
pub fn signed_millis(millis: Option<u128>) -> (r: i64)
    ensures
        r == match millis {
            Some(n) => n as i64,
            None => 0,
        },
{
    match millis {
        Some(n) => {
            #[verifier::truncate]
            (n as i64)
        },
        None => 0,
    }
}

/// A reading of the clock as an unsigned number of milliseconds, where it is
/// one.
pub fn unsigned_millis(millis: Option<u128>) -> (r: Option<u64>)
    ensures
        match (millis, r) {
            (Some(n), Some(m)) => m == n,
            (Some(n), None) => n > u64::MAX,
            (None, None) => true,
            (None, Some(_)) => false,
        },
{
    match millis {
        Some(n) => if n <= 0xffff_ffff_ffff_ffff {
            Some(n as u64)
        } else {
            None
        },
        None => None,
    }
}

/// Milliseconds since the epoch, as a card's start is written.
pub fn now_millis() -> (r: i64)
    ensures
        exists|millis: Option<u128>| #[trigger]
            clock_showed(millis) && r == match millis {
                Some(n) => n as i64,
                None => 0,
            },
{
    signed_millis(since_epoch())
}

/// Milliseconds since the epoch, as events are dated.
pub fn event_clock() -> (r: Option<u64>)
    ensures
        exists|millis: Option<u128>| #[trigger]
            clock_showed(millis) && match (millis, r) {
                (Some(n), Some(m)) => m == n,
                (Some(n), None) => n > u64::MAX,
                (None, None) => true,
                (None, Some(_)) => false,
            },
{
    unsigned_millis(since_epoch())
}

/// Data always show, whatever was asked for and whatever else is known.
pub proof fn data_always_show(
    info: InfoView,
    static_fallback: bool,
    start_ms: int,
    player_name: Option<Seq<char>>,
    character: Option<CharacterView>,
    uid_known: bool,
    display_name: Option<Seq<char>>,
    version: Option<Seq<char>>,
)
    ensures
        decision(
            Some(info),
            static_fallback,
            start_ms,
            player_name,
            character,
            uid_known,
            display_name,
            version,
        ) == PublishView::Rich(rich_card(start_ms, info, player_name, character)),
{
}

/// Without data a name shows only with a known login, static text only where
/// it was asked for, and silence is what is left.
pub proof fn tiers_come_in_order(
    static_fallback: bool,
    start_ms: int,
    player_name: Option<Seq<char>>,
    character: Option<CharacterView>,
    uid_known: bool,
    display_name: Option<Seq<char>>,
    version: Option<Seq<char>>,
)
    ensures
        ({
            let named = uid_known && (player_name is Some || display_name is Some);
            let chosen = decision(
                None,
                static_fallback,
                start_ms,
                player_name,
                character,
                uid_known,
                display_name,
                version,
            );
            &&& chosen is NamedStatic <==> named
            &&& chosen is Static <==> !named && static_fallback
            &&& chosen is Silent <==> !named && !static_fallback
        }),
{
}

/// A name that was asked for wins: it is what the card shows, with data, and
/// without them for a known login.
pub proof fn asked_name_wins(
    start_ms: int,
    info: InfoView,
    name: Seq<char>,
    character: Option<CharacterView>,
    uid_known: bool,
    display_name: Option<Seq<char>>,
    version: Option<Seq<char>>,
    static_fallback: bool,
)
    ensures
        decision(
            Some(info),
            static_fallback,
            start_ms,
            Some(name),
            character,
            uid_known,
            display_name,
            version,
        ).card() matches Some(card) && card.member("details"@) == Some(Tree::Text(name)),
        decision(
            None,
            static_fallback,
            start_ms,
            Some(name),
            character,
            true,
            display_name,
            version,
        ).card() matches Some(card) && card.member("details"@) == Some(Tree::Text(name)),
{
    card_says(
        name,
        Some("Lv. "@ + info.union_level + " | Region: "@ + info.region),
        Some(pictures(small_picture(character, info_bits(info.quests_done, info.game_version)))),
        start_ms,
    );
    card_says(
        name,
        Some(STATIC_TEXT@),
        Some(pictures(small_picture(character, info_bits(None, version)))),
        start_ms,
    );
}

/// No card shows a uid: accounts that differ only in it have the same card.
pub proof fn cards_never_show_uids(
    start_ms: int,
    a: InfoView,
    b: InfoView,
    player_name: Option<Seq<char>>,
    character: Option<CharacterView>,
)
    requires
        b == (InfoView { uid: b.uid, ..a }),
    ensures
        rich_card(start_ms, a, player_name, character) == rich_card(
            start_ms,
            b,
            player_name,
            character,
        ),
{
}

/// The icon of a character owns the small picture of every card with a name
/// or data, and its name leads the hover text.
pub proof fn character_owns_the_small_picture(
    character: CharacterView,
    bits: Seq<Seq<char>>,
)
    ensures
        pictures(small_picture(Some(character), bits)).member("small_image"@) == Some(
            Tree::Text(character.asset),
        ),
        pictures(small_picture(Some(character), bits)).member("small_text"@) matches Some(
            Tree::Text(text),
        ) && text.len() >= character.display.len() && text.take(character.display.len() as int)
            == character.display,
{
    let all = seq![character.display] + bits;
    pictures_show(small_picture(Some(character), bits));
    joined_starts(all);
    assert(all[0] == character.display);
}

proof fn joined_starts(bits: Seq<Seq<char>>)
    requires
        bits.len() > 0,
    ensures
        joined(bits).len() >= bits[0].len(),
        joined(bits).take(bits[0].len() as int) == bits[0],
    decreases bits.len(),
{
    if bits.len() > 1 {
        let rest = bits.drop_last();
        joined_starts(rest);
        assert(rest[0] == bits[0]);
        assert(joined(bits).take(bits[0].len() as int) =~= joined(rest).take(
            bits[0].len() as int,
        ));
    } else {
        assert(bits[0].take(bits[0].len() as int) =~= bits[0]);
    }
}

proof fn pictures_are_readable(pairs: Seq<(Seq<char>, Tree)>)
    requires
        forall|i: int| 0 <= i < pairs.len() ==> (#[trigger] pairs[i]).1 is Text,
    ensures
        Tree::Object(object_of(pairs)).integral(),
        Tree::Object(object_of(pairs)).within(124),
{
    object_is_readable(pairs, 124);
}

proof fn card_is_readable(
    details: Seq<char>,
    state: Option<Seq<char>>,
    assets: Option<Tree>,
    start_ms: int,
)
    requires
        assets matches Some(assets) ==> assets.integral() && assets.within(124),
    ensures
        card(details, state, assets, start_ms).integral(),
        card(details, state, assets, start_ms).within(125),
{
    crate::json::integers_are_integral(start_ms);
    object_is_readable(seq![("start"@, Tree::Number(decimal_int(start_ms)))], 124);
    object_is_readable(card_pairs(details, state, assets, start_ms), 125);
}

/// Every card can be read by whoever gets it: its numbers are whole, and it
/// is shallow enough to stand in a message.
pub proof fn cards_are_readable(
    start_ms: int,
    info: InfoView,
    details: Seq<char>,
    state: Seq<char>,
    name: Option<Seq<char>>,
    version: Option<Seq<char>>,
    character: Option<CharacterView>,
    portrait: Option<Seq<char>>,
)
    ensures
        static_card(start_ms).integral() && static_card(start_ms).within(125),
        named_card(start_ms, details, version, character).integral(),
        named_card(start_ms, details, version, character).within(125),
        rich_card(start_ms, info, name, character).integral(),
        rich_card(start_ms, info, name, character).within(125),
        official_card(start_ms, details, state, portrait).integral(),
        official_card(start_ms, details, state, portrait).within(125),
{
    pictures_are_readable(picture_pairs(None));
    card_is_readable(STATIC_TEXT@, None, Some(pictures(None)), start_ms);
    let small = small_picture(character, info_bits(None, version));
    pictures_are_readable(picture_pairs(small));
    card_is_readable(details, Some(STATIC_TEXT@), Some(pictures(small)), start_ms);
    let full = small_picture(character, info_bits(info.quests_done, info.game_version));
    pictures_are_readable(picture_pairs(full));
    card_is_readable(
        match shown_name(info, name) {
            Some(name) => name,
            None => "Union Level "@ + info.union_level,
        },
        Some("Lv. "@ + info.union_level + " | Region: "@ + info.region),
        Some(pictures(full)),
        start_ms,
    );
    let shown = if state.len() > 0 {
        Some(state)
    } else {
        None
    };
    match portrait {
        Some(portrait) => {
            let pairs = seq![("large_image"@, Tree::Text(portrait))];
            pictures_are_readable(pairs);
            card_is_readable(details, shown, Some(Tree::Object(object_of(pairs))), start_ms);
        },
        None => {
            card_is_readable(details, shown, None, start_ms);
        },
    }
}

proof fn card_members(
    details: Seq<char>,
    state: Option<Seq<char>>,
    assets: Option<Tree>,
    start_ms: int,
)
    ensures
        ({
            let start = Tree::Object(map!["start"@ => Tree::Number(decimal_int(start_ms))]);
            let base =
                map![
                "details"@ => Tree::Text(details),
                "timestamps"@ => start,
                "instance"@ => Tree::Bool(false),
            ];
            let stated = match state {
                Some(state) => base.insert("state"@, Tree::Text(state)),
                None => base,
            };
            card(details, state, assets, start_ms) == Tree::Object(
                match assets {
                    Some(assets) => stated.insert("assets"@, assets),
                    None => stated,
                },
            )
        }),
{
    let time = ("start"@, Tree::Number(decimal_int(start_ms)));
    crate::json::object_of_one(time.0, time.1);
    let start = Tree::Object(map!["start"@ => Tree::Number(decimal_int(start_ms))]);
    let (a, b, c) = (
        ("details"@, Tree::Text(details)),
        ("timestamps"@, start),
        ("instance"@, Tree::Bool(false)),
    );
    crate::json::object_of_one(a.0, a.1);
    crate::json::object_of_more(seq![a], b);
    crate::json::object_of_more(seq![a, b], c);
    assert(seq![a].push(b) =~= seq![a, b]);
    assert(seq![a, b].push(c) =~= seq![a, b, c]);
    let base = seq![a, b, c];
    let stated = match state {
        Some(state) => base.push(("state"@, Tree::Text(state))),
        None => base,
    };
    if let Some(state) = state {
        crate::json::object_of_more(base, ("state"@, Tree::Text(state)));
    }
    if let Some(assets) = assets {
        crate::json::object_of_more(stated, ("assets"@, assets));
    }
}

proof fn picture_members(small: Option<(Seq<char>, Seq<char>)>)
    ensures
        ({
            let base =
                map![
                "large_image"@ => Tree::Text("logo"@),
                "large_text"@ => Tree::Text("Wuthering Waves"@),
            ];
            pictures(small) == Tree::Object(
                match small {
                    Some((image, text)) => base.insert("small_image"@, Tree::Text(image)).insert(
                        "small_text"@,
                        Tree::Text(text),
                    ),
                    None => base,
                },
            )
        }),
{
    let (a, b) = (
        ("large_image"@, Tree::Text("logo"@)),
        ("large_text"@, Tree::Text("Wuthering Waves"@)),
    );
    crate::json::object_of_one(a.0, a.1);
    crate::json::object_of_more(seq![a], b);
    assert(seq![a].push(b) =~= seq![a, b]);
    if let Some((image, text)) = small {
        crate::json::object_of_more(seq![a, b], ("small_image"@, Tree::Text(image)));
        crate::json::object_of_more(
            seq![a, b].push(("small_image"@, Tree::Text(image))),
            ("small_text"@, Tree::Text(text)),
        );
    }
}

proof fn bits_read(
    quests: Option<nat>,
    version: Option<Seq<char>>,
    character: Option<CharacterView>,
)
    ensures
        small_picture(character, info_bits(quests, version)) == match (character, quests, version) {
            (Some(c), None, None) => Some((c.asset, c.display)),
            (Some(c), Some(n), None) => Some(
                (c.asset, c.display + " • "@ + (decimal(n) + " quests"@)),
            ),
            (Some(c), None, Some(v)) => Some((c.asset, c.display + " • "@ + ("v"@ + v))),
            (Some(c), Some(n), Some(v)) => Some(
                (c.asset, c.display + " • "@ + (decimal(n) + " quests"@) + " • "@ + ("v"@ + v)),
            ),
            (None, None, None) => None,
            (None, Some(n), None) => Some(("logo"@, decimal(n) + " quests"@)),
            (None, None, Some(v)) => Some(("logo"@, "v"@ + v)),
            (None, Some(n), Some(v)) => Some(
                ("logo"@, decimal(n) + " quests"@ + " • "@ + ("v"@ + v)),
            ),
        },
{
    reveal_with_fuel(joined, 4);
    let bits = info_bits(quests, version);
    assert(bits.len() == 2 ==> bits.drop_last() =~= seq![bits[0]]);
    if let Some(c) = character {
        let all = seq![c.display] + bits;
        assert(all[0] == c.display);
        assert(bits.len() == 0 ==> all =~= seq![c.display]);
        if bits.len() > 0 {
            assert(all.last() == bits.last());
            assert(all.drop_last() =~= seq![c.display] + bits.drop_last());
            if bits.len() == 2 {
                assert(all.drop_last().last() == bits[0]);
                assert(all.drop_last().drop_last() =~= seq![c.display]);
            } else {
                assert(all.drop_last() =~= seq![c.display]);
            }
        }
    }
}

/// The card without data, in full.
pub proof fn static_cards_are_fixed(start_ms: i64, r: Json)
    requires
        call_ensures(static_activity, (start_ms,), r),
    ensures
        r@ == Tree::Object(
            map![
                "details"@ => Tree::Text("Exploring SOL-III"@),
                "timestamps"@ => Tree::Object(
                    map!["start"@ => Tree::Number(decimal_int(start_ms as int))],
                ),
                "instance"@ => Tree::Bool(false),
                "assets"@ => Tree::Object(
                    map![
                        "large_image"@ => Tree::Text("logo"@),
                        "large_text"@ => Tree::Text("Wuthering Waves"@),
                    ],
                ),
            ],
        ),
{
    picture_members(None);
    card_members(STATIC_TEXT@, None, Some(pictures(None)), start_ms as int);
}

/// The card of a login with a name, in full: the name stands for details, the
/// static text for the state, and the small picture is the character's, with
/// its name and the version on hover, or the logo with the version alone.
pub proof fn named_cards_show_the_name(
    start_ms: i64,
    name: &str,
    version: Option<&str>,
    character: Option<&Character>,
    r: Json,
)
    requires
        call_ensures(named_static_activity, (start_ms, name, version, character), r),
    ensures
        ({
            let large =
                map![
                "large_image"@ => Tree::Text("logo"@),
                "large_text"@ => Tree::Text("Wuthering Waves"@),
            ];
            let assets = match (character, version) {
                (Some(c), Some(v)) => large.insert("small_image"@, Tree::Text(c.asset@)).insert(
                    "small_text"@,
                    Tree::Text(c.display@ + " • "@ + ("v"@ + v@)),
                ),
                (Some(c), None) => large.insert("small_image"@, Tree::Text(c.asset@)).insert(
                    "small_text"@,
                    Tree::Text(c.display@),
                ),
                (None, Some(v)) => large.insert("small_image"@, Tree::Text("logo"@)).insert(
                    "small_text"@,
                    Tree::Text("v"@ + v@),
                ),
                (None, None) => large,
            };
            r@ == Tree::Object(
                map![
                    "details"@ => Tree::Text(name@),
                    "timestamps"@ => Tree::Object(
                        map!["start"@ => Tree::Number(decimal_int(start_ms as int))],
                    ),
                    "instance"@ => Tree::Bool(false),
                    "state"@ => Tree::Text("Exploring SOL-III"@),
                    "assets"@ => Tree::Object(assets),
                ],
            )
        }),
{
    let who = opt_character(character);
    let small = small_picture(who, info_bits(None, opt_str(version)));
    bits_read(None, opt_str(version), who);
    picture_members(small);
    card_members(name@, Some(STATIC_TEXT@), Some(pictures(small)), start_ms as int);
}

/// The card with data, in full: an asked name, else the display name, else the
/// level stands for details; level and region for the state; and the hover
/// text of the small picture has the character's name, the quests and the
/// version, in this order and as far as they are known.
pub proof fn rich_cards_show_the_data(
    start_ms: i64,
    info: &PlayerInfo,
    player_name: Option<&str>,
    character: Option<&Character>,
    r: Json,
)
    requires
        call_ensures(db_activity, (start_ms, info, player_name, character), r),
    ensures
        ({
            let details = match (player_name, info.display_name) {
                (Some(name), _) => name@,
                (None, Some(name)) => name@,
                (None, None) => "Union Level "@ + info.union_level@,
            };
            let state = "Lv. "@ + info.union_level@ + " | Region: "@ + info.region@;
            let text = match (info.quests_done, info.game_version) {
                (None, None) => None,
                (Some(n), None) => Some(decimal(n as nat) + " quests"@),
                (None, Some(v)) => Some("v"@ + v@),
                (Some(n), Some(v)) => Some(
                    decimal(n as nat) + " quests"@ + " • "@ + ("v"@ + v@),
                ),
            };
            let large =
                map![
                "large_image"@ => Tree::Text("logo"@),
                "large_text"@ => Tree::Text("Wuthering Waves"@),
            ];
            let assets = match (character, text) {
                (Some(c), Some(text)) => large.insert("small_image"@, Tree::Text(c.asset@)).insert(
                    "small_text"@,
                    Tree::Text(c.display@ + " • "@ + text),
                ),
                (Some(c), None) => large.insert("small_image"@, Tree::Text(c.asset@)).insert(
                    "small_text"@,
                    Tree::Text(c.display@),
                ),
                (None, Some(text)) => large.insert("small_image"@, Tree::Text("logo"@)).insert(
                    "small_text"@,
                    Tree::Text(text),
                ),
                (None, None) => large,
            };
            r@ == Tree::Object(
                map![
                    "details"@ => Tree::Text(details),
                    "timestamps"@ => Tree::Object(
                        map!["start"@ => Tree::Number(decimal_int(start_ms as int))],
                    ),
                    "instance"@ => Tree::Bool(false),
                    "state"@ => Tree::Text(state),
                    "assets"@ => Tree::Object(assets),
                ],
            )
        }),
{
    let who = opt_character(character);
    let data = info@;
    let small = small_picture(who, info_bits(data.quests_done, data.game_version));
    bits_read(data.quests_done, data.game_version, who);
    picture_members(small);
    let details = match shown_name(data, opt_str(player_name)) {
        Some(name) => name,
        None => "Union Level "@ + data.union_level,
    };
    card_members(
        details,
        Some("Lv. "@ + data.union_level + " | Region: "@ + data.region),
        Some(pictures(small)),
        start_ms as int,
    );
    if let (Some(c), Some(n), Some(v)) = (character, info.quests_done, info.game_version) {
        let quests = decimal(n as nat) + " quests"@;
        assert(c.display@ + " • "@ + quests + " • "@ + ("v"@ + v@) =~= c.display@ + " • "@ + (
        quests + " • "@ + ("v"@ + v@)));
    }
}

/// The companion card, in full: details, the state unless it is empty, and the
/// portrait as the only picture where there is one.
pub proof fn companion_cards_show_the_portrait(
    start_ms: i64,
    details: &str,
    state: &str,
    portrait: Option<&str>,
    r: Json,
)
    requires
        call_ensures(official_activity, (start_ms, details, state, portrait), r),
    ensures
        ({
            let base =
                map![
                "details"@ => Tree::Text(details@),
                "timestamps"@ => Tree::Object(
                    map!["start"@ => Tree::Number(decimal_int(start_ms as int))],
                ),
                "instance"@ => Tree::Bool(false),
            ];
            let stated = if state@.len() > 0 {
                base.insert("state"@, Tree::Text(state@))
            } else {
                base
            };
            r@ == Tree::Object(
                match portrait {
                    Some(portrait) => stated.insert(
                        "assets"@,
                        Tree::Object(map!["large_image"@ => Tree::Text(portrait@)]),
                    ),
                    None => stated,
                },
            )
        }),
{
    companion_members(start_ms as int, details@, state@, opt_str(portrait));
}

/// The start of the session is all that a card says of time.
pub proof fn start_is_the_only_time(
    details: Seq<char>,
    state: Option<Seq<char>>,
    assets: Option<Tree>,
    start_ms: int,
)
    ensures
        card(details, state, assets, start_ms).member("timestamps"@) == Some(
            Tree::Object(map!["start"@ => Tree::Number(decimal_int(start_ms))]),
        ),
{
    start_stands(details, state, assets, start_ms);
    crate::json::object_of_one("start"@, Tree::Number(decimal_int(start_ms)));
}

/// The members of a companion card.
pub proof fn companion_members(
    start_ms: int,
    details: Seq<char>,
    state: Seq<char>,
    portrait: Option<Seq<char>>,
)
    ensures
        ({
            let base =
                map![
                "details"@ => Tree::Text(details),
                "timestamps"@ => Tree::Object(
                    map!["start"@ => Tree::Number(decimal_int(start_ms))],
                ),
                "instance"@ => Tree::Bool(false),
            ];
            let stated = if state.len() > 0 {
                base.insert("state"@, Tree::Text(state))
            } else {
                base
            };
            official_card(start_ms, details, state, portrait) == Tree::Object(
                match portrait {
                    Some(portrait) => stated.insert(
                        "assets"@,
                        Tree::Object(map!["large_image"@ => Tree::Text(portrait)]),
                    ),
                    None => stated,
                },
            )
        }),
{
    let shown = if state.len() > 0 {
        Some(state)
    } else {
        None
    };
    match portrait {
        Some(portrait) => {
            crate::json::object_of_one("large_image"@, Tree::Text(portrait));
            card_members(
                details,
                shown,
                Some(Tree::Object(object_of(seq![("large_image"@, Tree::Text(portrait))]))),
                start_ms,
            );
        },
        None => {
            card_members(details, shown, None, start_ms);
        },
    }
}

/// A decision with data is the card that is built from exactly these data.
pub proof fn data_make_the_card(
    info: &PlayerInfo,
    static_fallback: bool,
    start_ms: i64,
    player_name: Option<&str>,
    character: Option<&Character>,
    live: LiveContext<'_>,
    card: Json,
    r: Publish,
)
    requires
        call_ensures(
            decide_publish,
            (Some(info), static_fallback, start_ms, player_name, character, live),
            r,
        ),
        call_ensures(db_activity, (start_ms, info, player_name, character), card),
    ensures
        r matches Publish::Rich(chosen) && chosen@ == card@,
{
}

/// A decision without data for a known login with a name is the card that is
/// built from the asked name, or else the display name, and the version.
pub proof fn names_make_the_card(
    static_fallback: bool,
    start_ms: i64,
    player_name: Option<&str>,
    character: Option<&Character>,
    live: LiveContext<'_>,
    name: &str,
    card: Json,
    r: Publish,
)
    requires
        call_ensures(
            decide_publish,
            (None, static_fallback, start_ms, player_name, character, live),
            r,
        ),
        live.uid_known,
        player_name == Some(name) || (player_name is None && live.display_name == Some(name)),
        call_ensures(named_static_activity, (start_ms, name, live.version, character), card),
    ensures
        r matches Publish::NamedStatic(chosen) && chosen@ == card@,
{
}

/// A decision without data and without a name, or without a login, is the
/// static card where static text was asked for, and silence else.
pub proof fn nothing_known_is_static_or_silent(
    static_fallback: bool,
    start_ms: i64,
    player_name: Option<&str>,
    character: Option<&Character>,
    live: LiveContext<'_>,
    card: Json,
    r: Publish,
)
    requires
        call_ensures(
            decide_publish,
            (None, static_fallback, start_ms, player_name, character, live),
            r,
        ),
        !live.uid_known || (player_name is None && live.display_name is None),
        call_ensures(static_activity, (start_ms,), card),
    ensures
        static_fallback ==> (r matches Publish::Static(chosen) && chosen@ == card@),
        !static_fallback ==> r is Silent,
{
}

/// A decision has a card unless it is silence, and its tier is its own.
pub proof fn decisions_hold_their_card(
    publish: Publish,
    card: Option<Json>,
    tier: Tier,
    word: &'static str,
)
    requires
        call_ensures(Publish::into_activity, (publish,), card),
        call_ensures(tier_of, (&publish,), tier),
        call_ensures(tier_name, (&publish,), word),
    ensures
        match publish {
            Publish::Rich(it) => tier == Tier::Rich && word@ == "rich"@ && opt_json(card) == Some(
                it@,
            ),
            Publish::NamedStatic(it) => tier == Tier::NamedStatic && word@ == "named-static"@
                && opt_json(card) == Some(it@),
            Publish::Static(it) => tier == Tier::Static && word@ == "static"@ && opt_json(card)
                == Some(it@),
            Publish::Silent => tier == Tier::Silent && word@ == "silent"@ && card is None,
        },
{
}

/// A card is sent again exactly when it is another one than was sent last, or
/// the first, or after twelve ticks that skipped it.
pub proof fn cards_are_sent_on_change(last: Option<&str>, body: &str, streak: u32, r: bool)
    requires
        call_ensures(should_resend, (last, body, streak), r),
    ensures
        last is None ==> r,
        last matches Some(last) ==> (last@ != body@ ==> r),
        last matches Some(last) ==> (last@ == body@ ==> (r <==> streak >= 12)),
{
}

/// Play moved on exactly when both accounts are known and differ.
pub proof fn switches_need_two_accounts(previous: Option<&str>, current: Option<&str>, r: bool)
    requires
        call_ensures(account_switched, (previous, current), r),
    ensures
        r <==> previous is Some && current is Some && previous->Some_0@ != current->Some_0@,
{
}

/// A reading of the clock keeps its value wherever the number can hold it.
pub proof fn readings_keep_their_value(millis: Option<u128>, signed: i64, unsigned: Option<u64>)
    requires
        call_ensures(signed_millis, (millis,), signed),
        call_ensures(unsigned_millis, (millis,), unsigned),
    ensures
        millis is None ==> signed == 0 && unsigned is None,
        millis matches Some(n) ==> (n <= 9223372036854775807 ==> signed == n),
        millis matches Some(n) ==> (n <= 18446744073709551615 ==> unsigned == Some(n as u64)),
        millis matches Some(n) ==> (n > 18446744073709551615 ==> unsigned is None),
{
}

/// What is told of a decision: the inputs, each in its place, and the tiers
/// before and after.
pub proof fn changes_are_told_with_their_inputs(
    data: bool,
    named: bool,
    login: bool,
    static_text: bool,
    character: Option<&str>,
    before: Option<Tier>,
    after: Tier,
    inputs: String,
    shown: &str,
    told: String,
)
    requires
        call_ensures(tier_inputs, (data, named, login, static_text, character), inputs),
        call_ensures(tier_change, (before, after, shown), told),
    ensures
        ({
            let word = |yes: bool|
                if yes {
                    "true"@
                } else {
                    "false"@
                };
            let tier = |tier: Tier|
                match tier {
                    Tier::Rich => "rich"@,
                    Tier::NamedStatic => "named-static"@,
                    Tier::Static => "static"@,
                    Tier::Silent => "silent"@,
                };
            let key = match character {
                Some(key) => key@,
                None => "none"@,
            };
            let from = match before {
                Some(before) => tier(before),
                None => "none"@,
            };
            &&& inputs@ == "(level data: "@ + word(data) + ", name: "@ + word(named)
                + ", login known: "@ + word(login) + ", static flag: "@ + word(static_text)
                + ", character: "@ + key + ")"@
            &&& told@ == "presence tier: "@ + from + " -> "@ + tier(after) + " "@ + shown@
        }),
{
}

/// A tier is told in one word.
pub proof fn tiers_have_a_word(tier: Tier, r: &'static str)
    requires
        call_ensures(Tier::name, (tier,), r),
    ensures
        r@ == match tier {
            Tier::Rich => "rich"@,
            Tier::NamedStatic => "named-static"@,
            Tier::Static => "static"@,
            Tier::Silent => "silent"@,
        },
{
}

/// The clock is read as it shows: a start in signed milliseconds, zero before
/// the epoch, and an event's time in unsigned ones, where there are any.
pub proof fn clocks_are_read(now: i64, at: Option<u64>)
    requires
        call_ensures(now_millis, (), now),
        call_ensures(event_clock, (), at),
    ensures
        exists|millis: Option<u128>| #[trigger]
            clock_showed(millis) && (millis is None ==> now == 0) && (millis matches Some(n) ==> (
            n <= 9223372036854775807 ==> now == n)),
        exists|millis: Option<u128>| #[trigger]
            clock_showed(millis) && (at matches Some(m) ==> millis == Some(m as u128)) && (at is None
                ==> millis is None || millis->Some_0 > 18446744073709551615),
{
    let millis = choose|millis: Option<u128>| #[trigger]
        clock_showed(millis) && now == match millis {
            Some(n) => n as i64,
            None => 0,
        };
    assert(clock_showed(millis));
    let other = choose|millis: Option<u128>| #[trigger]
        clock_showed(millis) && match (millis, at) {
            (Some(n), Some(m)) => m == n,
            (Some(n), None) => n > u64::MAX,
            (None, None) => true,
            (None, Some(_)) => false,
        };
    assert(clock_showed(other));
}

} // verus!
