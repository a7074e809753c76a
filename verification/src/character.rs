//! The playable characters: what an icon is chosen by, and where its
//! portrait lies.
//!
//! A name here is only a key: the art is uploaded to the application under
//! the same lowercase name. A new character is one line in the table.
use crate::text::{glue, digit, lower, same, to_lower};
use vstd::prelude::*;

verus! {

/// One selectable character.
#[derive(Clone, Copy, Debug, PartialEq, Eq)]
pub struct Character {
    /// What input is matched with: lowercase letters and digits only.
    pub key: &'static str,
    /// The key of the art asset.
    pub asset: &'static str,
    /// Hover text.
    pub display: &'static str,
    /// The exact stem of the portrait's file name.
    pub file: &'static str,
}

/// Key, asset, hover text and file stem of each character, alphabetical by
/// key.
pub const CHARACTERS: [(&'static str, &'static str, &'static str, &'static str); 63] = [
    ("aalto", "aalto", "Aalto", "Aalto"),
    ("aemeath", "aemeath", "Aemeath", "Aemeath"),
    ("augusta", "augusta", "Augusta", "Augusta"),
    ("baizhi", "baizhi", "Baizhi", "Baizhi"),
    ("brant", "brant", "Brant", "Brant"),
    ("buling", "buling", "Buling", "Buling"),
    ("calcharo", "calcharo", "Calcharo", "Calcharo"),
    ("camellya", "camellya", "Camellya", "Camellya"),
    ("cantarella", "cantarella", "Cantarella", "Cantarella"),
    ("carlotta", "carlotta", "Carlotta", "Carlotta"),
    ("cartethyia", "cartethyia", "Cartethyia", "Cartethyia"),
    ("changli", "changli", "Changli", "Changli"),
    ("chisa", "chisa", "Chisa", "Chisa"),
    ("chixia", "chixia", "Chixia", "Chixia"),
    ("ciaccona", "ciaccona", "Ciaccona", "Ciaccona"),
    ("danjin", "danjin", "Danjin", "Danjin"),
    ("denia", "denia", "Denia", "Denia"),
    ("encore", "encore", "Encore", "Encore"),
    ("galbrena", "galbrena", "Galbrena", "Galbrena"),
    ("hiyuki", "hiyuki", "Hiyuki", "Hiyuki"),
    ("hsin", "hsin", "Hsin", "Hsin"),
    ("iuno", "iuno", "Iuno", "Iuno"),
    ("jianxin", "jianxin", "Jianxin", "Jianxin"),
    ("jingran", "jingran", "Jingran", "Jingran"),
    ("jinhsi", "jinhsi", "Jinhsi", "Jinhsi"),
    ("jiyan", "jiyan", "Jiyan", "Jiyan"),
    ("lingyang", "lingyang", "Lingyang", "Lingyang"),
    ("lucilla", "lucilla", "Lucilla", "Lucilla"),
    ("lucy", "lucy", "Lucy", "Lucy"),
    ("lumi", "lumi", "Lumi", "Lumi"),
    ("lupa", "lupa", "Lupa", "Lupa"),
    ("luukherssen", "luukherssen", "LuukHerssen", "LuukHerssen"),
    ("lynae", "lynae", "Lynae", "Lynae"),
    ("mornye", "mornye", "Mornye", "Mornye"),
    ("mortefi", "mortefi", "Mortefi", "Mortefi"),
    ("phoebe", "phoebe", "Phoebe", "Phoebe"),
    ("phrolova", "phrolova", "Phrolova", "Phrolova"),
    ("qingxiao", "qingxiao", "Qingxiao", "Qingxiao"),
    ("qiuyuan", "qiuyuan", "Qiuyuan", "Qiuyuan"),
    ("rebecca", "rebecca", "Rebecca", "Rebecca"),
    ("roccia", "roccia", "Roccia", "Roccia"),
    ("roveraerofemale", "roveraerofemale", "Rover (Aero, Female)", "RoverAeroFemale"),
    ("roveraeromale", "roveraeromale", "Rover (Aero, Male)", "RoverAeroMale"),
    ("roverelectrofemale", "roverelectrofemale", "Rover (Electro, Female)", "Roverelectrofemale"),
    ("roverelectromale", "roverelectromale", "Rover (Electro, Male)", "Roverelectromale"),
    ("roverhavocfemale", "roverhavocfemale", "Rover (Havoc, Female)", "RoverHavocFemale"),
    ("roverhavocmale", "roverhavocmale", "Rover (Havoc, Male)", "RoverHavocMale"),
    ("roverspectrofemale", "roverspectrofemale", "Rover (Spectro, Female)", "RoverSpectroFemale"),
    ("roverspectromale", "roverspectromale", "Rover (Spectro, Male)", "RoverSpectroMale"),
    ("sanhua", "sanhua", "Sanhua", "Sanhua"),
    ("shorekeeper", "shorekeeper", "Shorekeeper", "Shorekeeper"),
    ("sigrika", "sigrika", "Sigrika", "Sigrika"),
    ("suisui", "suisui", "Suisui", "Suisui"),
    ("suoming", "suoming", "Suoming", "Suoming"),
    ("taoqi", "taoqi", "Taoqi", "Taoqi"),
    ("verina", "verina", "Verina", "Verina"),
    ("xiangliyao", "xiangliyao", "Xiangli Yao", "XiangliYao"),
    ("yangyang", "yangyang", "Yangyang", "Yangyang"),
    ("yinlin", "yinlin", "Yinlin", "Yinlin"),
    ("youhu", "youhu", "Youhu", "Youhu"),
    ("yuanwu", "yuanwu", "Yuanwu", "Yuanwu"),
    ("zani", "zani", "Zani", "Zani"),
    ("zhezhi", "zhezhi", "Zhezhi", "Zhezhi"),
];

/// Where the portraits lie.
pub const PORTRAIT_BASE_URL: &'static str =
    "https://cdn.jsdelivr.net/gh/ryanbenson/wuthering-waves-assets@master/images";

/// A character, as data.
pub struct CharacterView {
    pub key: Seq<char>,
    pub asset: Seq<char>,
    pub display: Seq<char>,
    pub file: Seq<char>,
}

impl View for Character {
    type V = CharacterView;

    open spec fn view(&self) -> CharacterView {
        CharacterView {
            key: self.key@,
            asset: self.asset@,
            display: self.display@,
            file: self.file@,
        }
    }
}

/// The character in a row of the table.
pub open spec fn entry(i: int) -> CharacterView {
    CharacterView {
        key: CHARACTERS@[i].0@,
        asset: CHARACTERS@[i].1@,
        display: CHARACTERS@[i].2@,
        file: CHARACTERS@[i].3@,
    }
}

/// Whether a character is an ASCII letter or digit.
pub open spec fn alphanumeric(c: char) -> bool {
    digit(c) || 'a' <= c <= 'z' || 'A' <= c <= 'Z'
}

/// What input is matched as: its ASCII letters and digits, in lower case.
pub open spec fn normalized(s: Seq<char>) -> Seq<char>
    decreases s.len(),
{
    if s.len() == 0 {
        s
    } else if alphanumeric(s.last()) {
        normalized(s.drop_last()).push(lower(s.last()))
    } else {
        normalized(s.drop_last())
    }
}

/// Whether a text is made of lowercase letters and digits only.
pub open spec fn plain(s: Seq<char>) -> bool {
    forall|i: int| 0 <= i < s.len() ==> digit(#[trigger] s[i]) || 'a' <= s[i] <= 'z'
}

/// What input is matched as is plain, and plain text is matched as it is: to
/// normalize twice is to normalize once.
pub proof fn normalizing_settles(s: Seq<char>)
    ensures
        plain(normalized(s)),
        plain(s) ==> normalized(s) == s,
        normalized(normalized(s)) == normalized(s),
{
    normalized_is_plain(s);
    plain_is_normalized(normalized(s));
    if plain(s) {
        plain_is_normalized(s);
    }
}

/// Case does not matter: input that differs only in ASCII case is matched as
/// the same.
pub proof fn case_does_not_matter(a: Seq<char>, b: Seq<char>)
    requires
        crate::text::lowered(a) == crate::text::lowered(b),
    ensures
        normalized(a) == normalized(b),
    decreases a.len(),
{
    assert(crate::text::lowered(a).len() == a.len());
    assert(crate::text::lowered(b).len() == b.len());
    if a.len() > 0 {
        let n = a.len() - 1;
        assert(crate::text::lowered(a)[n] == lower(a[n]));
        assert(crate::text::lowered(b)[n] == lower(b[n]));
        assert(crate::text::lowered(a.drop_last()) =~= crate::text::lowered(a).drop_last());
        assert(crate::text::lowered(b.drop_last()) =~= crate::text::lowered(b).drop_last());
        case_does_not_matter(a.drop_last(), b.drop_last());
    }
}

proof fn normalized_is_plain(s: Seq<char>)
    ensures
        plain(normalized(s)),
    decreases s.len(),
{
    if s.len() > 0 {
        normalized_is_plain(s.drop_last());
    }
}

proof fn plain_is_normalized(s: Seq<char>)
    requires
        plain(s),
    ensures
        normalized(s) == s,
    decreases s.len(),
{
    if s.len() > 0 {
        assert(plain(s.drop_last()));
        plain_is_normalized(s.drop_last());
        assert(s.drop_last().push(s.last()) == s);
    }
}

/// Normalizes input for matching, so that case, spaces, dashes and quotes do
/// not matter.
pub fn normalize(input: &str) -> (r: String)
    ensures
        r@ == normalized(input@),
{
    let mut out = String::new();
    for c in it: input.chars()
        invariant
            out@ == normalized(input@.take(it.index() as int)),
            it.seq() == input@,
    {
        let ghost taken = input@.take(it.index() + 1);
        assert(taken.drop_last() == input@.take(it.index() as int));
        assert(taken.last() == c);
        if ('0' <= c && c <= '9') || ('a' <= c && c <= 'z') || ('A' <= c && c <= 'Z') {
            out.push(to_lower(c));
        }
    }
    assert(input@.take(input@.len() as int) == input@);
    out
}

/// The full address of a character's portrait.
pub fn portrait_url(character: &Character) -> (r: String)
    ensures
        r@ == PORTRAIT_BASE_URL@ + "/"@ + character.file@ + ".png"@,
{
    let base = glue(PORTRAIT_BASE_URL, "/");
    glue(glue(base.as_str(), character.file).as_str(), ".png")
}

/// The character that input names: the one whose key it is matched as.
pub open spec fn found(input: Seq<char>) -> Option<CharacterView> {
    if exists|i: int| 0 <= i < CHARACTERS@.len() && (#[trigger] entry(i)).key == normalized(input) {
        Some(
            entry(
                choose|i: int|
                    0 <= i < CHARACTERS@.len() && (#[trigger] entry(i)).key == normalized(input),
            ),
        )
    } else {
        None
    }
}

/// Finds the character that input names. Blank or unknown input names none.
pub fn find(input: &str) -> (r: Option<Character>)
    ensures
        found(input@) == match r {
            Some(character) => Some(character@),
            None => None,
        },
        match r {
            Some(character) => exists|i: int|
                0 <= i < CHARACTERS@.len() && character@ == #[trigger] entry(i) && entry(i).key
                    == normalized(input@),
            None => forall|i: int|
                0 <= i < CHARACTERS@.len() ==> (#[trigger] entry(i)).key != normalized(input@),
        },
{
    let key = normalize(input);
    let table = CHARACTERS;
    let mut i: usize = 0;
    while i < table.len()
        invariant
            i <= table@.len(),
            table == CHARACTERS,
            key@ == normalized(input@),
            forall|j: int| 0 <= j < i ==> (#[trigger] entry(j)).key != normalized(input@),
        decreases table@.len() - i,
    {
        let row = table[i];
        if same(row.0, key.as_str()) {
            let character = Character { key: row.0, asset: row.1, display: row.2, file: row.3 };
            assert(character@ == entry(i as int));
            proof {
                input_finds_its_character(input@, i as int);
            }
            return Some(character);
        }
        i += 1;
    }
    None
}

/// Every selectable character, alphabetical.
pub fn all() -> (r: Vec<Character>)
    ensures
        r@.len() == CHARACTERS@.len(),
        forall|i: int| 0 <= i < r@.len() ==> (#[trigger] r@[i])@ == entry(i),
{
    let table = CHARACTERS;
    let mut list: Vec<Character> = Vec::new();
    let mut i: usize = 0;
    while i < table.len()
        invariant
            i <= table@.len(),
            table == CHARACTERS,
            list@.len() == i,
            forall|j: int| 0 <= j < i ==> (#[trigger] list@[j])@ == entry(j),
        decreases table@.len() - i,
    {
        let row = table[i];
        list.push(Character { key: row.0, asset: row.1, display: row.2, file: row.3 });
        i += 1;
    }
    list
}

/// Whether a text stands before another one in the alphabet.
pub open spec fn before(a: Seq<char>, b: Seq<char>) -> bool {
    exists|k: int| #[trigger] differ_first(a, b, k)
}

/// Whether two texts are the same up to a place, and there the first has
/// ended or has the smaller character.
pub open spec fn differ_first(a: Seq<char>, b: Seq<char>, k: int) -> bool {
    &&& 0 <= k <= a.len()
    &&& k < b.len()
    &&& forall|i: int| 0 <= i < k ==> a[i] == #[trigger] b[i]
    &&& k == a.len() || a[k] < b[k]
}

/// What holds of a row: key and asset are the same plain text, and there is a
/// hover text.
pub open spec fn proper(row: CharacterView) -> bool {
    &&& row.key.len() > 0
    &&& plain(row.key)
    &&& row.asset == row.key
    &&& row.display.len() > 0
}

proof fn rows_from_0(i: int)
    requires
        0 <= i < 5,
    ensures
        proper(entry(i)),
        i < 62 ==> before(entry(i).key, entry(i + 1).key),
{
    if i == 0 {
        reveal_strlit("aalto");
        reveal_strlit("Aalto");
        reveal_strlit("aemeath");
        assert(differ_first(entry(0).key, entry(1).key, 1));
    }
    if i == 1 {
        reveal_strlit("aemeath");
        reveal_strlit("Aemeath");
        reveal_strlit("augusta");
        assert(differ_first(entry(1).key, entry(2).key, 1));
    }
    if i == 2 {
        reveal_strlit("augusta");
        reveal_strlit("Augusta");
        reveal_strlit("baizhi");
        assert(differ_first(entry(2).key, entry(3).key, 0));
    }
    if i == 3 {
        reveal_strlit("baizhi");
        reveal_strlit("Baizhi");
        reveal_strlit("brant");
        assert(differ_first(entry(3).key, entry(4).key, 1));
    }
    if i == 4 {
        reveal_strlit("brant");
        reveal_strlit("Brant");
        reveal_strlit("buling");
        assert(differ_first(entry(4).key, entry(5).key, 1));
    }
}

proof fn rows_from_5(i: int)
    requires
        5 <= i < 10,
    ensures
        proper(entry(i)),
        i < 62 ==> before(entry(i).key, entry(i + 1).key),
{
    if i == 5 {
        reveal_strlit("buling");
        reveal_strlit("Buling");
        reveal_strlit("calcharo");
        assert(differ_first(entry(5).key, entry(6).key, 0));
    }
    if i == 6 {
        reveal_strlit("calcharo");
        reveal_strlit("Calcharo");
        reveal_strlit("camellya");
        assert(differ_first(entry(6).key, entry(7).key, 2));
    }
    if i == 7 {
        reveal_strlit("camellya");
        reveal_strlit("Camellya");
        reveal_strlit("cantarella");
        assert(differ_first(entry(7).key, entry(8).key, 2));
    }
    if i == 8 {
        reveal_strlit("cantarella");
        reveal_strlit("Cantarella");
        reveal_strlit("carlotta");
        assert(differ_first(entry(8).key, entry(9).key, 2));
    }
    if i == 9 {
        reveal_strlit("carlotta");
        reveal_strlit("Carlotta");
        reveal_strlit("cartethyia");
        assert(differ_first(entry(9).key, entry(10).key, 3));
    }
}

proof fn rows_from_10(i: int)
    requires
        10 <= i < 15,
    ensures
        proper(entry(i)),
        i < 62 ==> before(entry(i).key, entry(i + 1).key),
{
    if i == 10 {
        reveal_strlit("cartethyia");
        reveal_strlit("Cartethyia");
        reveal_strlit("changli");
        assert(differ_first(entry(10).key, entry(11).key, 1));
    }
    if i == 11 {
        reveal_strlit("changli");
        reveal_strlit("Changli");
        reveal_strlit("chisa");
        assert(differ_first(entry(11).key, entry(12).key, 2));
    }
    if i == 12 {
        reveal_strlit("chisa");
        reveal_strlit("Chisa");
        reveal_strlit("chixia");
        assert(differ_first(entry(12).key, entry(13).key, 3));
    }
    if i == 13 {
        reveal_strlit("chixia");
        reveal_strlit("Chixia");
        reveal_strlit("ciaccona");
        assert(differ_first(entry(13).key, entry(14).key, 1));
    }
    if i == 14 {
        reveal_strlit("ciaccona");
        reveal_strlit("Ciaccona");
        reveal_strlit("danjin");
        assert(differ_first(entry(14).key, entry(15).key, 0));
    }
}

proof fn rows_from_15(i: int)
    requires
        15 <= i < 20,
    ensures
        proper(entry(i)),
        i < 62 ==> before(entry(i).key, entry(i + 1).key),
{
    if i == 15 {
        reveal_strlit("danjin");
        reveal_strlit("Danjin");
        reveal_strlit("denia");
        assert(differ_first(entry(15).key, entry(16).key, 1));
    }
    if i == 16 {
        reveal_strlit("denia");
        reveal_strlit("Denia");
        reveal_strlit("encore");
        assert(differ_first(entry(16).key, entry(17).key, 0));
    }
    if i == 17 {
        reveal_strlit("encore");
        reveal_strlit("Encore");
        reveal_strlit("galbrena");
        assert(differ_first(entry(17).key, entry(18).key, 0));
    }
    if i == 18 {
        reveal_strlit("galbrena");
        reveal_strlit("Galbrena");
        reveal_strlit("hiyuki");
        assert(differ_first(entry(18).key, entry(19).key, 0));
    }
    if i == 19 {
        reveal_strlit("hiyuki");
        reveal_strlit("Hiyuki");
        reveal_strlit("hsin");
        assert(differ_first(entry(19).key, entry(20).key, 1));
    }
}

proof fn rows_from_20(i: int)
    requires
        20 <= i < 25,
    ensures
        proper(entry(i)),
        i < 62 ==> before(entry(i).key, entry(i + 1).key),
{
    if i == 20 {
        reveal_strlit("hsin");
        reveal_strlit("Hsin");
        reveal_strlit("iuno");
        assert(differ_first(entry(20).key, entry(21).key, 0));
    }
    if i == 21 {
        reveal_strlit("iuno");
        reveal_strlit("Iuno");
        reveal_strlit("jianxin");
        assert(differ_first(entry(21).key, entry(22).key, 0));
    }
    if i == 22 {
        reveal_strlit("jianxin");
        reveal_strlit("Jianxin");
        reveal_strlit("jingran");
        assert(differ_first(entry(22).key, entry(23).key, 2));
    }
    if i == 23 {
        reveal_strlit("jingran");
        reveal_strlit("Jingran");
        reveal_strlit("jinhsi");
        assert(differ_first(entry(23).key, entry(24).key, 3));
    }
    if i == 24 {
        reveal_strlit("jinhsi");
        reveal_strlit("Jinhsi");
        reveal_strlit("jiyan");
        assert(differ_first(entry(24).key, entry(25).key, 2));
    }
}

proof fn rows_from_25(i: int)
    requires
        25 <= i < 30,
    ensures
        proper(entry(i)),
        i < 62 ==> before(entry(i).key, entry(i + 1).key),
{
    if i == 25 {
        reveal_strlit("jiyan");
        reveal_strlit("Jiyan");
        reveal_strlit("lingyang");
        assert(differ_first(entry(25).key, entry(26).key, 0));
    }
    if i == 26 {
        reveal_strlit("lingyang");
        reveal_strlit("Lingyang");
        reveal_strlit("lucilla");
        assert(differ_first(entry(26).key, entry(27).key, 1));
    }
    if i == 27 {
        reveal_strlit("lucilla");
        reveal_strlit("Lucilla");
        reveal_strlit("lucy");
        assert(differ_first(entry(27).key, entry(28).key, 3));
    }
    if i == 28 {
        reveal_strlit("lucy");
        reveal_strlit("Lucy");
        reveal_strlit("lumi");
        assert(differ_first(entry(28).key, entry(29).key, 2));
    }
    if i == 29 {
        reveal_strlit("lumi");
        reveal_strlit("Lumi");
        reveal_strlit("lupa");
        assert(differ_first(entry(29).key, entry(30).key, 2));
    }
}

proof fn rows_from_30(i: int)
    requires
        30 <= i < 35,
    ensures
        proper(entry(i)),
        i < 62 ==> before(entry(i).key, entry(i + 1).key),
{
    if i == 30 {
        reveal_strlit("lupa");
        reveal_strlit("Lupa");
        reveal_strlit("luukherssen");
        assert(differ_first(entry(30).key, entry(31).key, 2));
    }
    if i == 31 {
        reveal_strlit("luukherssen");
        reveal_strlit("LuukHerssen");
        reveal_strlit("lynae");
        assert(differ_first(entry(31).key, entry(32).key, 1));
    }
    if i == 32 {
        reveal_strlit("lynae");
        reveal_strlit("Lynae");
        reveal_strlit("mornye");
        assert(differ_first(entry(32).key, entry(33).key, 0));
    }
    if i == 33 {
        reveal_strlit("mornye");
        reveal_strlit("Mornye");
        reveal_strlit("mortefi");
        assert(differ_first(entry(33).key, entry(34).key, 3));
    }
    if i == 34 {
        reveal_strlit("mortefi");
        reveal_strlit("Mortefi");
        reveal_strlit("phoebe");
        assert(differ_first(entry(34).key, entry(35).key, 0));
    }
}

proof fn rows_from_35(i: int)
    requires
        35 <= i < 40,
    ensures
        proper(entry(i)),
        i < 62 ==> before(entry(i).key, entry(i + 1).key),
{
    if i == 35 {
        reveal_strlit("phoebe");
        reveal_strlit("Phoebe");
        reveal_strlit("phrolova");
        assert(differ_first(entry(35).key, entry(36).key, 2));
    }
    if i == 36 {
        reveal_strlit("phrolova");
        reveal_strlit("Phrolova");
        reveal_strlit("qingxiao");
        assert(differ_first(entry(36).key, entry(37).key, 0));
    }
    if i == 37 {
        reveal_strlit("qingxiao");
        reveal_strlit("Qingxiao");
        reveal_strlit("qiuyuan");
        assert(differ_first(entry(37).key, entry(38).key, 2));
    }
    if i == 38 {
        reveal_strlit("qiuyuan");
        reveal_strlit("Qiuyuan");
        reveal_strlit("rebecca");
        assert(differ_first(entry(38).key, entry(39).key, 0));
    }
    if i == 39 {
        reveal_strlit("rebecca");
        reveal_strlit("Rebecca");
        reveal_strlit("roccia");
        assert(differ_first(entry(39).key, entry(40).key, 1));
    }
}

proof fn rows_from_40(i: int)
    requires
        40 <= i < 45,
    ensures
        proper(entry(i)),
        i < 62 ==> before(entry(i).key, entry(i + 1).key),
{
    if i == 40 {
        reveal_strlit("roccia");
        reveal_strlit("Roccia");
        reveal_strlit("roveraerofemale");
        assert(differ_first(entry(40).key, entry(41).key, 2));
    }
    if i == 41 {
        reveal_strlit("roveraerofemale");
        reveal_strlit("Rover (Aero, Female)");
        reveal_strlit("roveraeromale");
        assert(differ_first(entry(41).key, entry(42).key, 9));
    }
    if i == 42 {
        reveal_strlit("roveraeromale");
        reveal_strlit("Rover (Aero, Male)");
        reveal_strlit("roverelectrofemale");
        assert(differ_first(entry(42).key, entry(43).key, 5));
    }
    if i == 43 {
        reveal_strlit("roverelectrofemale");
        reveal_strlit("Rover (Electro, Female)");
        reveal_strlit("roverelectromale");
        assert(differ_first(entry(43).key, entry(44).key, 12));
    }
    if i == 44 {
        reveal_strlit("roverelectromale");
        reveal_strlit("Rover (Electro, Male)");
        reveal_strlit("roverhavocfemale");
        assert(differ_first(entry(44).key, entry(45).key, 5));
    }
}

proof fn rows_from_45(i: int)
    requires
        45 <= i < 50,
    ensures
        proper(entry(i)),
        i < 62 ==> before(entry(i).key, entry(i + 1).key),
{
    if i == 45 {
        reveal_strlit("roverhavocfemale");
        reveal_strlit("Rover (Havoc, Female)");
        reveal_strlit("roverhavocmale");
        assert(differ_first(entry(45).key, entry(46).key, 10));
    }
    if i == 46 {
        reveal_strlit("roverhavocmale");
        reveal_strlit("Rover (Havoc, Male)");
        reveal_strlit("roverspectrofemale");
        assert(differ_first(entry(46).key, entry(47).key, 5));
    }
    if i == 47 {
        reveal_strlit("roverspectrofemale");
        reveal_strlit("Rover (Spectro, Female)");
        reveal_strlit("roverspectromale");
        assert(differ_first(entry(47).key, entry(48).key, 12));
    }
    if i == 48 {
        reveal_strlit("roverspectromale");
        reveal_strlit("Rover (Spectro, Male)");
        reveal_strlit("sanhua");
        assert(differ_first(entry(48).key, entry(49).key, 0));
    }
    if i == 49 {
        reveal_strlit("sanhua");
        reveal_strlit("Sanhua");
        reveal_strlit("shorekeeper");
        assert(differ_first(entry(49).key, entry(50).key, 1));
    }
}

proof fn rows_from_50(i: int)
    requires
        50 <= i < 55,
    ensures
        proper(entry(i)),
        i < 62 ==> before(entry(i).key, entry(i + 1).key),
{
    if i == 50 {
        reveal_strlit("shorekeeper");
        reveal_strlit("Shorekeeper");
        reveal_strlit("sigrika");
        assert(differ_first(entry(50).key, entry(51).key, 1));
    }
    if i == 51 {
        reveal_strlit("sigrika");
        reveal_strlit("Sigrika");
        reveal_strlit("suisui");
        assert(differ_first(entry(51).key, entry(52).key, 1));
    }
    if i == 52 {
        reveal_strlit("suisui");
        reveal_strlit("Suisui");
        reveal_strlit("suoming");
        assert(differ_first(entry(52).key, entry(53).key, 2));
    }
    if i == 53 {
        reveal_strlit("suoming");
        reveal_strlit("Suoming");
        reveal_strlit("taoqi");
        assert(differ_first(entry(53).key, entry(54).key, 0));
    }
    if i == 54 {
        reveal_strlit("taoqi");
        reveal_strlit("Taoqi");
        reveal_strlit("verina");
        assert(differ_first(entry(54).key, entry(55).key, 0));
    }
}

proof fn rows_from_55(i: int)
    requires
        55 <= i < 60,
    ensures
        proper(entry(i)),
        i < 62 ==> before(entry(i).key, entry(i + 1).key),
{
    if i == 55 {
        reveal_strlit("verina");
        reveal_strlit("Verina");
        reveal_strlit("xiangliyao");
        assert(differ_first(entry(55).key, entry(56).key, 0));
    }
    if i == 56 {
        reveal_strlit("xiangliyao");
        reveal_strlit("Xiangli Yao");
        reveal_strlit("yangyang");
        assert(differ_first(entry(56).key, entry(57).key, 0));
    }
    if i == 57 {
        reveal_strlit("yangyang");
        reveal_strlit("Yangyang");
        reveal_strlit("yinlin");
        assert(differ_first(entry(57).key, entry(58).key, 1));
    }
    if i == 58 {
        reveal_strlit("yinlin");
        reveal_strlit("Yinlin");
        reveal_strlit("youhu");
        assert(differ_first(entry(58).key, entry(59).key, 1));
    }
    if i == 59 {
        reveal_strlit("youhu");
        reveal_strlit("Youhu");
        reveal_strlit("yuanwu");
        assert(differ_first(entry(59).key, entry(60).key, 1));
    }
}

proof fn rows_from_60(i: int)
    requires
        60 <= i < 63,
    ensures
        proper(entry(i)),
        i < 62 ==> before(entry(i).key, entry(i + 1).key),
{
    if i == 60 {
        reveal_strlit("yuanwu");
        reveal_strlit("Yuanwu");
        reveal_strlit("zani");
        assert(differ_first(entry(60).key, entry(61).key, 0));
    }
    if i == 61 {
        reveal_strlit("zani");
        reveal_strlit("Zani");
        reveal_strlit("zhezhi");
        assert(differ_first(entry(61).key, entry(62).key, 1));
    }
    if i == 62 {
        reveal_strlit("zhezhi");
        reveal_strlit("Zhezhi");
    }
}

/// Every row is proper, and the rows are in alphabetical order.
proof fn rows_are_proper(i: int)
    requires
        0 <= i < CHARACTERS@.len(),
    ensures
        proper(entry(i)),
        i + 1 < CHARACTERS@.len() ==> before(entry(i).key, entry(i + 1).key),
{
    if i < 5 {
        rows_from_0(i);
    } else if i < 10 {
        rows_from_5(i);
    } else if i < 15 {
        rows_from_10(i);
    } else if i < 20 {
        rows_from_15(i);
    } else if i < 25 {
        rows_from_20(i);
    } else if i < 30 {
        rows_from_25(i);
    } else if i < 35 {
        rows_from_30(i);
    } else if i < 40 {
        rows_from_35(i);
    } else if i < 45 {
        rows_from_40(i);
    } else if i < 50 {
        rows_from_45(i);
    } else if i < 55 {
        rows_from_50(i);
    } else if i < 60 {
        rows_from_55(i);
    } else {
        rows_from_60(i);
    }
}

/// Whether hover text and file stem of a row are matched as its key.
pub open spec fn names_itself(row: CharacterView) -> bool {
    &&& normalized(row.display) == row.key
    &&& normalized(row.file) == row.key
}

/// What two texts are matched as, one behind the other.
proof fn normalized_splits(a: Seq<char>, b: Seq<char>)
    ensures
        normalized(a + b) == normalized(a) + normalized(b),
    decreases b.len(),
{
    if b.len() == 0 {
        assert(a + b =~= a);
        assert(normalized(a) + normalized(b) =~= normalized(a));
    } else {
        normalized_splits(a, b.drop_last());
        assert((a + b).drop_last() =~= a + b.drop_last());
        assert((a + b).last() == b.last());
        assert(normalized(a + b) =~= normalized(a) + normalized(b));
    }
}

/// A word is matched as itself in lower case.
proof fn words_are_lowered(s: Seq<char>)
    requires
        forall|i: int| 0 <= i < s.len() ==> alphanumeric(#[trigger] s[i]),
    ensures
        normalized(s) == crate::text::lowered(s),
    decreases s.len(),
{
    if s.len() > 0 {
        words_are_lowered(s.drop_last());
        assert(normalized(s) =~= crate::text::lowered(s));
    } else {
        assert(normalized(s) =~= crate::text::lowered(s));
    }
}

/// What is no letter or digit does not count.
proof fn noise_is_dropped(s: Seq<char>)
    requires
        forall|i: int| 0 <= i < s.len() ==> !alphanumeric(#[trigger] s[i]),
    ensures
        normalized(s) == Seq::<char>::empty(),
    decreases s.len(),
{
    if s.len() > 0 {
        noise_is_dropped(s.drop_last());
    }
}

/// Noise between two parts does not count.
proof fn noise_between_is_dropped(s: Seq<char>, from: int, to: int)
    requires
        0 <= from <= to <= s.len(),
        forall|i: int| from <= i < to ==> !alphanumeric(#[trigger] s[i]),
    ensures
        normalized(s) == normalized(s.take(from) + s.skip(to)),
{
    let noise = s.subrange(from, to);
    noise_is_dropped(noise);
    normalized_splits(s.take(from), s.skip(to));
    normalized_splits(s.take(from), noise + s.skip(to));
    normalized_splits(noise, s.skip(to));
    assert(s =~= s.take(from) + (noise + s.skip(to)));
    assert(normalized(noise) + normalized(s.skip(to)) =~= normalized(s.skip(to)));
}

proof fn names_from_0(i: int)
    requires
        0 <= i < 5,
    ensures
        names_itself(entry(i)),
{
    if i == 0 {
        reveal_strlit("aalto");
        reveal_strlit("Aalto");
        assert(crate::text::lowered("Aalto"@) =~= "aalto"@);
        words_are_lowered("Aalto"@);
    }
    if i == 1 {
        reveal_strlit("aemeath");
        reveal_strlit("Aemeath");
        assert(crate::text::lowered("Aemeath"@) =~= "aemeath"@);
        words_are_lowered("Aemeath"@);
    }
    if i == 2 {
        reveal_strlit("augusta");
        reveal_strlit("Augusta");
        assert(crate::text::lowered("Augusta"@) =~= "augusta"@);
        words_are_lowered("Augusta"@);
    }
    if i == 3 {
        reveal_strlit("baizhi");
        reveal_strlit("Baizhi");
        assert(crate::text::lowered("Baizhi"@) =~= "baizhi"@);
        words_are_lowered("Baizhi"@);
    }
    if i == 4 {
        reveal_strlit("brant");
        reveal_strlit("Brant");
        assert(crate::text::lowered("Brant"@) =~= "brant"@);
        words_are_lowered("Brant"@);
    }
}

proof fn names_from_5(i: int)
    requires
        5 <= i < 10,
    ensures
        names_itself(entry(i)),
{
    if i == 5 {
        reveal_strlit("buling");
        reveal_strlit("Buling");
        assert(crate::text::lowered("Buling"@) =~= "buling"@);
        words_are_lowered("Buling"@);
    }
    if i == 6 {
        reveal_strlit("calcharo");
        reveal_strlit("Calcharo");
        assert(crate::text::lowered("Calcharo"@) =~= "calcharo"@);
        words_are_lowered("Calcharo"@);
    }
    if i == 7 {
        reveal_strlit("camellya");
        reveal_strlit("Camellya");
        assert(crate::text::lowered("Camellya"@) =~= "camellya"@);
        words_are_lowered("Camellya"@);
    }
    if i == 8 {
        reveal_strlit("cantarella");
        reveal_strlit("Cantarella");
        assert(crate::text::lowered("Cantarella"@) =~= "cantarella"@);
        words_are_lowered("Cantarella"@);
    }
    if i == 9 {
        reveal_strlit("carlotta");
        reveal_strlit("Carlotta");
        assert(crate::text::lowered("Carlotta"@) =~= "carlotta"@);
        words_are_lowered("Carlotta"@);
    }
}

proof fn names_from_10(i: int)
    requires
        10 <= i < 15,
    ensures
        names_itself(entry(i)),
{
    if i == 10 {
        reveal_strlit("cartethyia");
        reveal_strlit("Cartethyia");
        assert(crate::text::lowered("Cartethyia"@) =~= "cartethyia"@);
        words_are_lowered("Cartethyia"@);
    }
    if i == 11 {
        reveal_strlit("changli");
        reveal_strlit("Changli");
        assert(crate::text::lowered("Changli"@) =~= "changli"@);
        words_are_lowered("Changli"@);
    }
    if i == 12 {
        reveal_strlit("chisa");
        reveal_strlit("Chisa");
        assert(crate::text::lowered("Chisa"@) =~= "chisa"@);
        words_are_lowered("Chisa"@);
    }
    if i == 13 {
        reveal_strlit("chixia");
        reveal_strlit("Chixia");
        assert(crate::text::lowered("Chixia"@) =~= "chixia"@);
        words_are_lowered("Chixia"@);
    }
    if i == 14 {
        reveal_strlit("ciaccona");
        reveal_strlit("Ciaccona");
        assert(crate::text::lowered("Ciaccona"@) =~= "ciaccona"@);
        words_are_lowered("Ciaccona"@);
    }
}

proof fn names_from_15(i: int)
    requires
        15 <= i < 20,
    ensures
        names_itself(entry(i)),
{
    if i == 15 {
        reveal_strlit("danjin");
        reveal_strlit("Danjin");
        assert(crate::text::lowered("Danjin"@) =~= "danjin"@);
        words_are_lowered("Danjin"@);
    }
    if i == 16 {
        reveal_strlit("denia");
        reveal_strlit("Denia");
        assert(crate::text::lowered("Denia"@) =~= "denia"@);
        words_are_lowered("Denia"@);
    }
    if i == 17 {
        reveal_strlit("encore");
        reveal_strlit("Encore");
        assert(crate::text::lowered("Encore"@) =~= "encore"@);
        words_are_lowered("Encore"@);
    }
    if i == 18 {
        reveal_strlit("galbrena");
        reveal_strlit("Galbrena");
        assert(crate::text::lowered("Galbrena"@) =~= "galbrena"@);
        words_are_lowered("Galbrena"@);
    }
    if i == 19 {
        reveal_strlit("hiyuki");
        reveal_strlit("Hiyuki");
        assert(crate::text::lowered("Hiyuki"@) =~= "hiyuki"@);
        words_are_lowered("Hiyuki"@);
    }
}

proof fn names_from_20(i: int)
    requires
        20 <= i < 25,
    ensures
        names_itself(entry(i)),
{
    if i == 20 {
        reveal_strlit("hsin");
        reveal_strlit("Hsin");
        assert(crate::text::lowered("Hsin"@) =~= "hsin"@);
        words_are_lowered("Hsin"@);
    }
    if i == 21 {
        reveal_strlit("iuno");
        reveal_strlit("Iuno");
        assert(crate::text::lowered("Iuno"@) =~= "iuno"@);
        words_are_lowered("Iuno"@);
    }
    if i == 22 {
        reveal_strlit("jianxin");
        reveal_strlit("Jianxin");
        assert(crate::text::lowered("Jianxin"@) =~= "jianxin"@);
        words_are_lowered("Jianxin"@);
    }
    if i == 23 {
        reveal_strlit("jingran");
        reveal_strlit("Jingran");
        assert(crate::text::lowered("Jingran"@) =~= "jingran"@);
        words_are_lowered("Jingran"@);
    }
    if i == 24 {
        reveal_strlit("jinhsi");
        reveal_strlit("Jinhsi");
        assert(crate::text::lowered("Jinhsi"@) =~= "jinhsi"@);
        words_are_lowered("Jinhsi"@);
    }
}

proof fn names_from_25(i: int)
    requires
        25 <= i < 30,
    ensures
        names_itself(entry(i)),
{
    if i == 25 {
        reveal_strlit("jiyan");
        reveal_strlit("Jiyan");
        assert(crate::text::lowered("Jiyan"@) =~= "jiyan"@);
        words_are_lowered("Jiyan"@);
    }
    if i == 26 {
        reveal_strlit("lingyang");
        reveal_strlit("Lingyang");
        assert(crate::text::lowered("Lingyang"@) =~= "lingyang"@);
        words_are_lowered("Lingyang"@);
    }
    if i == 27 {
        reveal_strlit("lucilla");
        reveal_strlit("Lucilla");
        assert(crate::text::lowered("Lucilla"@) =~= "lucilla"@);
        words_are_lowered("Lucilla"@);
    }
    if i == 28 {
        reveal_strlit("lucy");
        reveal_strlit("Lucy");
        assert(crate::text::lowered("Lucy"@) =~= "lucy"@);
        words_are_lowered("Lucy"@);
    }
    if i == 29 {
        reveal_strlit("lumi");
        reveal_strlit("Lumi");
        assert(crate::text::lowered("Lumi"@) =~= "lumi"@);
        words_are_lowered("Lumi"@);
    }
}

proof fn names_from_30(i: int)
    requires
        30 <= i < 35,
    ensures
        names_itself(entry(i)),
{
    if i == 30 {
        reveal_strlit("lupa");
        reveal_strlit("Lupa");
        assert(crate::text::lowered("Lupa"@) =~= "lupa"@);
        words_are_lowered("Lupa"@);
    }
    if i == 31 {
        reveal_strlit("luukherssen");
        reveal_strlit("LuukHerssen");
        assert(crate::text::lowered("LuukHerssen"@) =~= "luukherssen"@);
        words_are_lowered("LuukHerssen"@);
    }
    if i == 32 {
        reveal_strlit("lynae");
        reveal_strlit("Lynae");
        assert(crate::text::lowered("Lynae"@) =~= "lynae"@);
        words_are_lowered("Lynae"@);
    }
    if i == 33 {
        reveal_strlit("mornye");
        reveal_strlit("Mornye");
        assert(crate::text::lowered("Mornye"@) =~= "mornye"@);
        words_are_lowered("Mornye"@);
    }
    if i == 34 {
        reveal_strlit("mortefi");
        reveal_strlit("Mortefi");
        assert(crate::text::lowered("Mortefi"@) =~= "mortefi"@);
        words_are_lowered("Mortefi"@);
    }
}

proof fn names_from_35(i: int)
    requires
        35 <= i < 40,
    ensures
        names_itself(entry(i)),
{
    if i == 35 {
        reveal_strlit("phoebe");
        reveal_strlit("Phoebe");
        assert(crate::text::lowered("Phoebe"@) =~= "phoebe"@);
        words_are_lowered("Phoebe"@);
    }
    if i == 36 {
        reveal_strlit("phrolova");
        reveal_strlit("Phrolova");
        assert(crate::text::lowered("Phrolova"@) =~= "phrolova"@);
        words_are_lowered("Phrolova"@);
    }
    if i == 37 {
        reveal_strlit("qingxiao");
        reveal_strlit("Qingxiao");
        assert(crate::text::lowered("Qingxiao"@) =~= "qingxiao"@);
        words_are_lowered("Qingxiao"@);
    }
    if i == 38 {
        reveal_strlit("qiuyuan");
        reveal_strlit("Qiuyuan");
        assert(crate::text::lowered("Qiuyuan"@) =~= "qiuyuan"@);
        words_are_lowered("Qiuyuan"@);
    }
    if i == 39 {
        reveal_strlit("rebecca");
        reveal_strlit("Rebecca");
        assert(crate::text::lowered("Rebecca"@) =~= "rebecca"@);
        words_are_lowered("Rebecca"@);
    }
}

proof fn names_from_40(i: int)
    requires
        40 <= i < 45,
    ensures
        names_itself(entry(i)),
{
    if i == 40 {
        reveal_strlit("roccia");
        reveal_strlit("Roccia");
        assert(crate::text::lowered("Roccia"@) =~= "roccia"@);
        words_are_lowered("Roccia"@);
    }
    if i == 41 {
        reveal_strlit("roveraerofemale");
        reveal_strlit("Rover (Aero, Female)");
        reveal_strlit("RoverAeroFemale");
        assert(crate::text::lowered("RoverAeroFemale"@) =~= "roveraerofemale"@);
        words_are_lowered("RoverAeroFemale"@);
        noise_between_is_dropped("Rover (Aero, Female)"@, 19, 20);
        let s1 = "Rover (Aero, Female)"@.take(19) + "Rover (Aero, Female)"@.skip(20);
        noise_between_is_dropped(s1, 11, 13);
        let s2 = s1.take(11) + s1.skip(13);
        noise_between_is_dropped(s2, 5, 7);
        let s3 = s2.take(5) + s2.skip(7);
        assert(crate::text::lowered(s3) =~= "roveraerofemale"@);
        words_are_lowered(s3);
    }
    if i == 42 {
        reveal_strlit("roveraeromale");
        reveal_strlit("Rover (Aero, Male)");
        reveal_strlit("RoverAeroMale");
        assert(crate::text::lowered("RoverAeroMale"@) =~= "roveraeromale"@);
        words_are_lowered("RoverAeroMale"@);
        noise_between_is_dropped("Rover (Aero, Male)"@, 17, 18);
        let s1 = "Rover (Aero, Male)"@.take(17) + "Rover (Aero, Male)"@.skip(18);
        noise_between_is_dropped(s1, 11, 13);
        let s2 = s1.take(11) + s1.skip(13);
        noise_between_is_dropped(s2, 5, 7);
        let s3 = s2.take(5) + s2.skip(7);
        assert(crate::text::lowered(s3) =~= "roveraeromale"@);
        words_are_lowered(s3);
    }
    if i == 43 {
        reveal_strlit("roverelectrofemale");
        reveal_strlit("Rover (Electro, Female)");
        reveal_strlit("Roverelectrofemale");
        assert(crate::text::lowered("Roverelectrofemale"@) =~= "roverelectrofemale"@);
        words_are_lowered("Roverelectrofemale"@);
        noise_between_is_dropped("Rover (Electro, Female)"@, 22, 23);
        let s1 = "Rover (Electro, Female)"@.take(22) + "Rover (Electro, Female)"@.skip(23);
        noise_between_is_dropped(s1, 14, 16);
        let s2 = s1.take(14) + s1.skip(16);
        noise_between_is_dropped(s2, 5, 7);
        let s3 = s2.take(5) + s2.skip(7);
        assert(crate::text::lowered(s3) =~= "roverelectrofemale"@);
        words_are_lowered(s3);
    }
    if i == 44 {
        reveal_strlit("roverelectromale");
        reveal_strlit("Rover (Electro, Male)");
        reveal_strlit("Roverelectromale");
        assert(crate::text::lowered("Roverelectromale"@) =~= "roverelectromale"@);
        words_are_lowered("Roverelectromale"@);
        noise_between_is_dropped("Rover (Electro, Male)"@, 20, 21);
        let s1 = "Rover (Electro, Male)"@.take(20) + "Rover (Electro, Male)"@.skip(21);
        noise_between_is_dropped(s1, 14, 16);
        let s2 = s1.take(14) + s1.skip(16);
        noise_between_is_dropped(s2, 5, 7);
        let s3 = s2.take(5) + s2.skip(7);
        assert(crate::text::lowered(s3) =~= "roverelectromale"@);
        words_are_lowered(s3);
    }
}

proof fn names_from_45(i: int)
    requires
        45 <= i < 50,
    ensures
        names_itself(entry(i)),
{
    if i == 45 {
        reveal_strlit("roverhavocfemale");
        reveal_strlit("Rover (Havoc, Female)");
        reveal_strlit("RoverHavocFemale");
        assert(crate::text::lowered("RoverHavocFemale"@) =~= "roverhavocfemale"@);
        words_are_lowered("RoverHavocFemale"@);
        noise_between_is_dropped("Rover (Havoc, Female)"@, 20, 21);
        let s1 = "Rover (Havoc, Female)"@.take(20) + "Rover (Havoc, Female)"@.skip(21);
        noise_between_is_dropped(s1, 12, 14);
        let s2 = s1.take(12) + s1.skip(14);
        noise_between_is_dropped(s2, 5, 7);
        let s3 = s2.take(5) + s2.skip(7);
        assert(crate::text::lowered(s3) =~= "roverhavocfemale"@);
        words_are_lowered(s3);
    }
    if i == 46 {
        reveal_strlit("roverhavocmale");
        reveal_strlit("Rover (Havoc, Male)");
        reveal_strlit("RoverHavocMale");
        assert(crate::text::lowered("RoverHavocMale"@) =~= "roverhavocmale"@);
        words_are_lowered("RoverHavocMale"@);
        noise_between_is_dropped("Rover (Havoc, Male)"@, 18, 19);
        let s1 = "Rover (Havoc, Male)"@.take(18) + "Rover (Havoc, Male)"@.skip(19);
        noise_between_is_dropped(s1, 12, 14);
        let s2 = s1.take(12) + s1.skip(14);
        noise_between_is_dropped(s2, 5, 7);
        let s3 = s2.take(5) + s2.skip(7);
        assert(crate::text::lowered(s3) =~= "roverhavocmale"@);
        words_are_lowered(s3);
    }
    if i == 47 {
        reveal_strlit("roverspectrofemale");
        reveal_strlit("Rover (Spectro, Female)");
        reveal_strlit("RoverSpectroFemale");
        assert(crate::text::lowered("RoverSpectroFemale"@) =~= "roverspectrofemale"@);
        words_are_lowered("RoverSpectroFemale"@);
        noise_between_is_dropped("Rover (Spectro, Female)"@, 22, 23);
        let s1 = "Rover (Spectro, Female)"@.take(22) + "Rover (Spectro, Female)"@.skip(23);
        noise_between_is_dropped(s1, 14, 16);
        let s2 = s1.take(14) + s1.skip(16);
        noise_between_is_dropped(s2, 5, 7);
        let s3 = s2.take(5) + s2.skip(7);
        assert(crate::text::lowered(s3) =~= "roverspectrofemale"@);
        words_are_lowered(s3);
    }
    if i == 48 {
        reveal_strlit("roverspectromale");
        reveal_strlit("Rover (Spectro, Male)");
        reveal_strlit("RoverSpectroMale");
        assert(crate::text::lowered("RoverSpectroMale"@) =~= "roverspectromale"@);
        words_are_lowered("RoverSpectroMale"@);
        noise_between_is_dropped("Rover (Spectro, Male)"@, 20, 21);
        let s1 = "Rover (Spectro, Male)"@.take(20) + "Rover (Spectro, Male)"@.skip(21);
        noise_between_is_dropped(s1, 14, 16);
        let s2 = s1.take(14) + s1.skip(16);
        noise_between_is_dropped(s2, 5, 7);
        let s3 = s2.take(5) + s2.skip(7);
        assert(crate::text::lowered(s3) =~= "roverspectromale"@);
        words_are_lowered(s3);
    }
    if i == 49 {
        reveal_strlit("sanhua");
        reveal_strlit("Sanhua");
        assert(crate::text::lowered("Sanhua"@) =~= "sanhua"@);
        words_are_lowered("Sanhua"@);
    }
}

proof fn names_from_50(i: int)
    requires
        50 <= i < 55,
    ensures
        names_itself(entry(i)),
{
    if i == 50 {
        reveal_strlit("shorekeeper");
        reveal_strlit("Shorekeeper");
        assert(crate::text::lowered("Shorekeeper"@) =~= "shorekeeper"@);
        words_are_lowered("Shorekeeper"@);
    }
    if i == 51 {
        reveal_strlit("sigrika");
        reveal_strlit("Sigrika");
        assert(crate::text::lowered("Sigrika"@) =~= "sigrika"@);
        words_are_lowered("Sigrika"@);
    }
    if i == 52 {
        reveal_strlit("suisui");
        reveal_strlit("Suisui");
        assert(crate::text::lowered("Suisui"@) =~= "suisui"@);
        words_are_lowered("Suisui"@);
    }
    if i == 53 {
        reveal_strlit("suoming");
        reveal_strlit("Suoming");
        assert(crate::text::lowered("Suoming"@) =~= "suoming"@);
        words_are_lowered("Suoming"@);
    }
    if i == 54 {
        reveal_strlit("taoqi");
        reveal_strlit("Taoqi");
        assert(crate::text::lowered("Taoqi"@) =~= "taoqi"@);
        words_are_lowered("Taoqi"@);
    }
}

proof fn names_from_55(i: int)
    requires
        55 <= i < 60,
    ensures
        names_itself(entry(i)),
{
    if i == 55 {
        reveal_strlit("verina");
        reveal_strlit("Verina");
        assert(crate::text::lowered("Verina"@) =~= "verina"@);
        words_are_lowered("Verina"@);
    }
    if i == 56 {
        reveal_strlit("xiangliyao");
        reveal_strlit("Xiangli Yao");
        reveal_strlit("XiangliYao");
        assert(crate::text::lowered("XiangliYao"@) =~= "xiangliyao"@);
        words_are_lowered("XiangliYao"@);
        noise_between_is_dropped("Xiangli Yao"@, 7, 8);
        let s1 = "Xiangli Yao"@.take(7) + "Xiangli Yao"@.skip(8);
        assert(crate::text::lowered(s1) =~= "xiangliyao"@);
        words_are_lowered(s1);
    }
    if i == 57 {
        reveal_strlit("yangyang");
        reveal_strlit("Yangyang");
        assert(crate::text::lowered("Yangyang"@) =~= "yangyang"@);
        words_are_lowered("Yangyang"@);
    }
    if i == 58 {
        reveal_strlit("yinlin");
        reveal_strlit("Yinlin");
        assert(crate::text::lowered("Yinlin"@) =~= "yinlin"@);
        words_are_lowered("Yinlin"@);
    }
    if i == 59 {
        reveal_strlit("youhu");
        reveal_strlit("Youhu");
        assert(crate::text::lowered("Youhu"@) =~= "youhu"@);
        words_are_lowered("Youhu"@);
    }
}

proof fn names_from_60(i: int)
    requires
        60 <= i < 63,
    ensures
        names_itself(entry(i)),
{
    if i == 60 {
        reveal_strlit("yuanwu");
        reveal_strlit("Yuanwu");
        assert(crate::text::lowered("Yuanwu"@) =~= "yuanwu"@);
        words_are_lowered("Yuanwu"@);
    }
    if i == 61 {
        reveal_strlit("zani");
        reveal_strlit("Zani");
        assert(crate::text::lowered("Zani"@) =~= "zani"@);
        words_are_lowered("Zani"@);
    }
    if i == 62 {
        reveal_strlit("zhezhi");
        reveal_strlit("Zhezhi");
        assert(crate::text::lowered("Zhezhi"@) =~= "zhezhi"@);
        words_are_lowered("Zhezhi"@);
    }
}

/// Every row names itself.
proof fn rows_name_themselves(i: int)
    requires
        0 <= i < CHARACTERS@.len(),
    ensures
        names_itself(entry(i)),
{
    if i < 5 {
        names_from_0(i);
    } else if i < 10 {
        names_from_5(i);
    } else if i < 15 {
        names_from_10(i);
    } else if i < 20 {
        names_from_15(i);
    } else if i < 25 {
        names_from_20(i);
    } else if i < 30 {
        names_from_25(i);
    } else if i < 35 {
        names_from_30(i);
    } else if i < 40 {
        names_from_35(i);
    } else if i < 45 {
        names_from_40(i);
    } else if i < 50 {
        names_from_45(i);
    } else if i < 55 {
        names_from_50(i);
    } else if i < 60 {
        names_from_55(i);
    } else {
        names_from_60(i);
    }
}

proof fn before_is_transitive(a: Seq<char>, b: Seq<char>, c: Seq<char>)
    requires
        before(a, b),
        before(b, c),
    ensures
        before(a, c),
{
    let j = choose|k: int| #[trigger] differ_first(a, b, k);
    let k = choose|k: int| #[trigger] differ_first(b, c, k);
    let m = if j < k {
        j
    } else {
        k
    };
    assert forall|i: int| 0 <= i < m implies a[i] == #[trigger] c[i] by {
        assert(a[i] == b[i]);
        assert(b[i] == c[i]);
    }
    if j < k {
        assert(b[j] == c[j]);
    }
    assert(differ_first(a, c, m));
}

/// The table lists each character once, in alphabetical order of the keys.
pub proof fn table_is_alphabetical(i: int, j: int)
    requires
        0 <= i < j < CHARACTERS@.len(),
    ensures
        before(entry(i).key, entry(j).key),
        entry(i).key != entry(j).key,
    decreases j - i,
{
    rows_are_proper(j - 1);
    if i < j - 1 {
        table_is_alphabetical(i, j - 1);
        before_is_transitive(entry(i).key, entry(j - 1).key, entry(j).key);
    }
    let k = choose|k: int| #[trigger] differ_first(entry(i).key, entry(j).key, k);
    assert(entry(i).key.len() == k || entry(i).key[k] != entry(j).key[k]);
}

/// The asset of a character is its key, in lowercase letters and digits, and
/// its hover text is not empty.
pub proof fn assets_are_keys(i: int)
    requires
        0 <= i < CHARACTERS@.len(),
    ensures
        proper(entry(i)),
{
    rows_are_proper(i);
}

/// Input finds a character exactly when it is matched as its key, and then
/// that character only: `i` is the one row that answers.
pub proof fn input_finds_its_character(input: Seq<char>, i: int)
    requires
        0 <= i < CHARACTERS@.len(),
        normalized(input) == entry(i).key,
    ensures
        forall|j: int|
            0 <= j < CHARACTERS@.len() && (#[trigger] entry(j)).key == normalized(input) ==> j == i,
{
    assert forall|j: int|
        0 <= j < CHARACTERS@.len() && (#[trigger] entry(j)).key == normalized(input) implies j
        == i by {
        if i < j {
            table_is_alphabetical(i, j);
        }
        if j < i {
            table_is_alphabetical(j, i);
        }
    }
}

/// A key finds its own character.
pub proof fn keys_are_matched_as_they_are(i: int)
    requires
        0 <= i < CHARACTERS@.len(),
    ensures
        normalized(entry(i).key) == entry(i).key,
{
    rows_are_proper(i);
    plain_is_normalized(entry(i).key);
}

/// Every listed name finds its own character: the key, the hover text and the
/// file stem of a row each find the character of that row.
pub proof fn listed_names_find_their_character(i: int)
    requires
        0 <= i < CHARACTERS@.len(),
    ensures
        normalized(entry(i).display) == entry(i).key,
        normalized(entry(i).file) == entry(i).key,
        found(entry(i).key) == Some(entry(i)),
        found(entry(i).display) == Some(entry(i)),
        found(entry(i).file) == Some(entry(i)),
{
    rows_name_themselves(i);
    keys_are_matched_as_they_are(i);
    input_finds_its_character(entry(i).key, i);
    input_finds_its_character(entry(i).display, i);
    input_finds_its_character(entry(i).file, i);
}

/// Input without a letter or digit names no character.
pub proof fn blank_input_names_none(input: Seq<char>, i: int)
    requires
        normalized(input).len() == 0,
        0 <= i < CHARACTERS@.len(),
    ensures
        entry(i).key != normalized(input),
{
    rows_are_proper(i);
}

/// Input is matched piece by piece: what two pieces are matched as together is
/// what each is matched as, in order. A letter is matched as itself in lower
/// case, a digit as itself, and anything else not at all.
pub proof fn input_is_matched_piece_by_piece(a: Seq<char>, b: Seq<char>, c: char)
    ensures
        normalized(a + b) == normalized(a) + normalized(b),
        '0' <= c <= '9' || 'a' <= c <= 'z' ==> normalized(seq![c]) == seq![c],
        'A' <= c <= 'Z' ==> normalized(seq![c]).len() == 1 && normalized(seq![c])[0] as u32 == c as u32
            + 32,
        !('0' <= c <= '9' || 'a' <= c <= 'z' || 'A' <= c <= 'Z') ==> normalized(seq![c])
            == Seq::<char>::empty(),
        normalized(Seq::<char>::empty()) == Seq::<char>::empty(),
{
    normalized_splits(a, b);
    assert(seq![c].drop_last() =~= Seq::<char>::empty());
    assert(seq![c].last() == c);
    assert(normalized(seq![c].drop_last()) =~= Seq::<char>::empty());
    assert(normalized(seq![c].drop_last()).push(lower(c)) =~= seq![lower(c)]);
}

/// What is found has the key that the input is matched as, is in the table,
/// and is found whenever something in the table has that key.
pub proof fn inputs_find_by_key(input: &str, key: String, r: Option<Character>)
    requires
        call_ensures(normalize, (input,), key),
        call_ensures(find, (input,), r),
    ensures
        key@ == normalized(input@),
        r matches Some(character) ==> character.key@ == key@ && exists|i: int|
            0 <= i < CHARACTERS@.len() && CHARACTERS@[i].0@ == character.key@
                && #[trigger] CHARACTERS@[i].1@ == character.asset@ && CHARACTERS@[i].2@
                == character.display@ && CHARACTERS@[i].3@ == character.file@,
        r is None ==> forall|i: int|
            0 <= i < CHARACTERS@.len() ==> #[trigger] CHARACTERS@[i].0@ != key@,
{
    if let Some(character) = r {
        let i = choose|i: int|
            0 <= i < CHARACTERS@.len() && character@ == #[trigger] entry(i) && entry(i).key
                == normalized(input@);
        assert(CHARACTERS@[i].1@ == character.asset@);
    } else {
        assert forall|i: int| 0 <= i < CHARACTERS@.len() implies #[trigger] CHARACTERS@[i].0@
            != key@ by {
            assert(entry(i).key != key@);
        }
    }
}

/// A portrait lies under the fixed address, by the character's file name.
pub proof fn portraits_lie_at_one_address(character: Character, r: String)
    requires
        call_ensures(portrait_url, (&character,), r),
    ensures
        r@ == "https://cdn.jsdelivr.net/gh/ryanbenson/wuthering-waves-assets@master/images"@ + "/"@
            + character.file@ + ".png"@,
{
}

/// All characters are listed, in the order of the table.
pub proof fn all_characters_are_listed(r: Vec<Character>, i: int)
    requires
        call_ensures(all, (), r),
        0 <= i < 63,
    ensures
        r@.len() == 63,
        r@[i].key@ == CHARACTERS@[i].0@,
        r@[i].asset@ == CHARACTERS@[i].1@,
        r@[i].display@ == CHARACTERS@[i].2@,
        r@[i].file@ == CHARACTERS@[i].3@,
{
    assert(r@[i]@ == entry(i));
}

} // verus!
