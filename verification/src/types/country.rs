//! ISO 3166-1 alpha-2 country identifiers stored in way data.

use vstd::prelude::*;

use crate::text::str_eq;

verus! {

/// Number of entries in [`COUNTRIES`].
pub const COUNTRY_COUNT: usize = 250;

/// Sorted list of ISO 3166-1 alpha-2 country codes.
/// The country ID stored in way data is `index + 1` (0 = unknown).
/// This list must never be reordered, only appended to.
pub const COUNTRIES: [&'static str; 250] = [
    "AD", "AE", "AF", "AG", "AI", "AL", "AM", "AO", "AQ", "AR", "AS", "AT", "AU", "AW", "AX", "AZ",
    "BA", "BB", "BD", "BE", "BF", "BG", "BH", "BI", "BJ", "BL", "BM", "BN", "BO", "BQ", "BR", "BS",
    "BT", "BV", "BW", "BY", "BZ", "CA", "CC", "CD", "CF", "CG", "CH", "CI", "CK", "CL", "CM", "CN",
    "CO", "CR", "CU", "CV", "CW", "CX", "CY", "CZ", "DE", "DJ", "DK", "DM", "DO", "DZ", "EC", "EE",
    "EG", "EH", "ER", "ES", "ET", "FI", "FJ", "FK", "FM", "FO", "FR", "GA", "GB", "GD", "GE", "GF",
    "GG", "GH", "GI", "GL", "GM", "GN", "GP", "GQ", "GR", "GS", "GT", "GU", "GW", "GY", "HK", "HM",
    "HN", "HR", "HT", "HU", "ID", "IE", "IL", "IM", "IN", "IO", "IQ", "IR", "IS", "IT", "JE", "JM",
    "JO", "JP", "KE", "KG", "KH", "KI", "KM", "KN", "KP", "KR", "KW", "KY", "KZ", "LA", "LB", "LC",
    "LI", "LK", "LR", "LS", "LT", "LU", "LV", "LY", "MA", "MC", "MD", "ME", "MF", "MG", "MH", "MK",
    "ML", "MM", "MN", "MO", "MP", "MQ", "MR", "MS", "MT", "MU", "MV", "MW", "MX", "MY", "MZ", "NA",
    "NC", "NE", "NF", "NG", "NI", "NL", "NO", "NP", "NR", "NU", "NZ", "OM", "PA", "PE", "PF", "PG",
    "PH", "PK", "PL", "PM", "PN", "PR", "PS", "PT", "PW", "PY", "QA", "RE", "RO", "RS", "RU", "RW",
    "SA", "SB", "SC", "SD", "SE", "SG", "SH", "SI", "SJ", "SK", "SL", "SM", "SN", "SO", "SR", "SS",
    "ST", "SV", "SX", "SY", "SZ", "TC", "TD", "TF", "TG", "TH", "TJ", "TK", "TL", "TM", "TN", "TO",
    "TR", "TT", "TV", "TW", "TZ", "UA", "UG", "UM", "US", "UY", "UZ", "VA", "VC", "VE", "VG", "VI",
    "VN", "VU", "WF", "WS", "XK", "YE", "YT", "ZA", "ZM", "ZW",
];

/// Opaque country identifier stored in way data.
/// Value 0 means unknown; values 1..=N index into [`COUNTRIES`].
#[derive(Copy, Clone, Debug, Default, PartialEq, Eq, Structural)]
pub struct CountryId(pub u8);

/// Whether `i` is the position of the first entry of `COUNTRIES` equal to `iso`.
pub open spec fn is_first_match(iso: Seq<char>, i: int) -> bool {
    &&& 0 <= i < COUNTRY_COUNT
    &&& COUNTRIES@[i]@ == iso
    &&& forall|j: int| 0 <= j < i ==> (#[trigger] COUNTRIES@[j])@ != iso
}

/// The id of the first entry of `COUNTRIES` whose code is `iso`, or 0 when none is.
pub open spec fn country_id_spec(iso: Seq<char>) -> u8 {
    if exists|i: int| 0 <= i < COUNTRY_COUNT && (#[trigger] COUNTRIES@[i])@ == iso {
        let i = choose|i: int| is_first_match(iso, i);
        (i + 1) as u8
    } else {
        0
    }
}

/// The code of country id `id`, or `None` for 0 and ids past the end of `COUNTRIES`.
pub open spec fn country_iso_spec(id: u8) -> Option<Seq<char>> {
    if 1 <= id <= COUNTRY_COUNT {
        Some(COUNTRIES@[id - 1]@)
    } else {
        None
    }
}

proof fn lemma_first_match_unique(iso: Seq<char>, i: int)
    requires
        is_first_match(iso, i),
    ensures
        country_id_spec(iso) == (i + 1) as u8,
{
    assert(exists|k: int| 0 <= k < COUNTRY_COUNT && (#[trigger] COUNTRIES@[k])@ == iso) by {
        assert(COUNTRIES@[i]@ == iso);
    }
    assert(exists|k: int| is_first_match(iso, k));
    let c = choose|k: int| is_first_match(iso, k);
    if c < i {
        assert(COUNTRIES@[c]@ != iso);
    } else if c > i {
        assert(COUNTRIES@[i]@ != iso);
    }
}

/// Returns the country ID (1-based index into `COUNTRIES`) for a given ISO alpha-2 code,
/// or `0` if the code is unknown.
pub fn country_id_from_iso2(iso: &str) -> (r: u8)
    ensures
        r == country_id_spec(iso@),
        r <= COUNTRY_COUNT,
        r == 0 <==> forall|i: int| 0 <= i < COUNTRY_COUNT ==> (#[trigger] COUNTRIES@[i])@ != iso@,
{
    let mut i: usize = 0;
    while i < COUNTRY_COUNT
        invariant
            i <= COUNTRY_COUNT,
            forall|j: int| 0 <= j < i ==> (#[trigger] COUNTRIES@[j])@ != iso@,
        decreases COUNTRY_COUNT - i,
    {
        if str_eq(COUNTRIES[i], iso) {
            proof {
                lemma_first_match_unique(iso@, i as int);
            }
            return (i + 1) as u8;
        }
        i = i + 1;
    }
    0
}

/// Returns the ISO alpha-2 code for a given country ID, or `None` if ID is 0 or out of range.
pub fn country_iso_from_id(id: u8) -> (r: Option<&'static str>)
    ensures
        r matches Some(s) ==> country_iso_spec(id) == Some(s@),
        r is None <==> country_iso_spec(id) is None,
{
    if id == 0 {
        return None;
    }
    let i = (id - 1) as usize;
    if i < COUNTRY_COUNT {
        Some(COUNTRIES[i])
    } else {
        None
    }
}

impl CountryId {
    /// The unknown country.
    pub fn unknown() -> (r: Self)
        ensures
            r.0 == 0,
    {
        CountryId(0)
    }

    /// Number of valid `CountryId` values (includes the unknown entry at index 0).
    pub const COUNT: usize = 251;

    pub fn from_iso2(iso: &str) -> (r: Self)
        ensures
            r.0 == country_id_spec(iso@),
            r.0 < Self::COUNT,
    {
        CountryId(country_id_from_iso2(iso))
    }

    pub fn to_iso2(self) -> (r: Option<&'static str>)
        ensures
            r matches Some(s) ==> country_iso_spec(self.0) == Some(s@),
            r is None <==> country_iso_spec(self.0) is None,
    {
        country_iso_from_id(self.0)
    }

    pub fn is_unknown(self) -> (r: bool)
        ensures
            r == (self.0 == 0),
    {
        self.0 == 0
    }
}

/// A code that has an id maps back to itself: the code of the id of `iso` is `iso`.
pub proof fn lemma_country_code_roundtrip(iso: Seq<char>)
    requires
        country_id_spec(iso) != 0,
    ensures
        country_iso_spec(country_id_spec(iso)) == Some(iso),
{
    if exists|i: int| 0 <= i < COUNTRY_COUNT && (#[trigger] COUNTRIES@[i])@ == iso {
        let w = choose|i: int| 0 <= i < COUNTRY_COUNT && (#[trigger] COUNTRIES@[i])@ == iso;
        lemma_exists_first_match(iso, w);
        let c = choose|k: int| is_first_match(iso, k);
        assert(is_first_match(iso, c));
    }
}

proof fn lemma_exists_first_match(iso: Seq<char>, w: int)
    requires
        0 <= w < COUNTRY_COUNT,
        COUNTRIES@[w]@ == iso,
    ensures
        exists|k: int| is_first_match(iso, k),
    decreases w,
{
    if forall|j: int| 0 <= j < w ==> (#[trigger] COUNTRIES@[j])@ != iso {
        assert(is_first_match(iso, w));
    } else {
        let j = choose|j: int| 0 <= j < w && (#[trigger] COUNTRIES@[j])@ == iso;
        lemma_exists_first_match(iso, j);
    }
}

/// The order of a two-letter code: by its first letter, then its second.
pub open spec fn code_key(s: Seq<char>) -> int {
    (s[0] as int) * 0x110000 + (s[1] as int)
}

/// The codes from position `i` on ascend, each below the next.
pub open spec fn ascending_from(i: nat) -> bool
    decreases COUNTRY_COUNT - i,
{
    if i + 1 >= COUNTRY_COUNT {
        true
    } else {
        code_key(COUNTRIES@[i as int]@) < code_key(COUNTRIES@[i + 1 as int]@) && ascending_from(i + 1)
    }
}

proof fn lemma_ascending_0_25()
    requires
        ascending_from(25),
    ensures
        ascending_from(0),
{
    reveal_strlit("AD");
    reveal_strlit("AE");
    reveal_strlit("AF");
    reveal_strlit("AG");
    reveal_strlit("AI");
    reveal_strlit("AL");
    reveal_strlit("AM");
    reveal_strlit("AO");
    reveal_strlit("AQ");
    reveal_strlit("AR");
    reveal_strlit("AS");
    reveal_strlit("AT");
    reveal_strlit("AU");
    reveal_strlit("AW");
    reveal_strlit("AX");
    reveal_strlit("AZ");
    reveal_strlit("BA");
    reveal_strlit("BB");
    reveal_strlit("BD");
    reveal_strlit("BE");
    reveal_strlit("BF");
    reveal_strlit("BG");
    reveal_strlit("BH");
    reveal_strlit("BI");
    reveal_strlit("BJ");
    reveal_strlit("BL");
    assert(COUNTRIES@[24]@ == "BJ"@ && COUNTRIES@[25]@ == "BL"@);
    assert(ascending_from(24));
    assert(COUNTRIES@[23]@ == "BI"@ && COUNTRIES@[24]@ == "BJ"@);
    assert(ascending_from(23));
    assert(COUNTRIES@[22]@ == "BH"@ && COUNTRIES@[23]@ == "BI"@);
    assert(ascending_from(22));
    assert(COUNTRIES@[21]@ == "BG"@ && COUNTRIES@[22]@ == "BH"@);
    assert(ascending_from(21));
    assert(COUNTRIES@[20]@ == "BF"@ && COUNTRIES@[21]@ == "BG"@);
    assert(ascending_from(20));
    assert(COUNTRIES@[19]@ == "BE"@ && COUNTRIES@[20]@ == "BF"@);
    assert(ascending_from(19));
    assert(COUNTRIES@[18]@ == "BD"@ && COUNTRIES@[19]@ == "BE"@);
    assert(ascending_from(18));
    assert(COUNTRIES@[17]@ == "BB"@ && COUNTRIES@[18]@ == "BD"@);
    assert(ascending_from(17));
    assert(COUNTRIES@[16]@ == "BA"@ && COUNTRIES@[17]@ == "BB"@);
    assert(ascending_from(16));
    assert(COUNTRIES@[15]@ == "AZ"@ && COUNTRIES@[16]@ == "BA"@);
    assert(ascending_from(15));
    assert(COUNTRIES@[14]@ == "AX"@ && COUNTRIES@[15]@ == "AZ"@);
    assert(ascending_from(14));
    assert(COUNTRIES@[13]@ == "AW"@ && COUNTRIES@[14]@ == "AX"@);
    assert(ascending_from(13));
    assert(COUNTRIES@[12]@ == "AU"@ && COUNTRIES@[13]@ == "AW"@);
    assert(ascending_from(12));
    assert(COUNTRIES@[11]@ == "AT"@ && COUNTRIES@[12]@ == "AU"@);
    assert(ascending_from(11));
    assert(COUNTRIES@[10]@ == "AS"@ && COUNTRIES@[11]@ == "AT"@);
    assert(ascending_from(10));
    assert(COUNTRIES@[9]@ == "AR"@ && COUNTRIES@[10]@ == "AS"@);
    assert(ascending_from(9));
    assert(COUNTRIES@[8]@ == "AQ"@ && COUNTRIES@[9]@ == "AR"@);
    assert(ascending_from(8));
    assert(COUNTRIES@[7]@ == "AO"@ && COUNTRIES@[8]@ == "AQ"@);
    assert(ascending_from(7));
    assert(COUNTRIES@[6]@ == "AM"@ && COUNTRIES@[7]@ == "AO"@);
    assert(ascending_from(6));
    assert(COUNTRIES@[5]@ == "AL"@ && COUNTRIES@[6]@ == "AM"@);
    assert(ascending_from(5));
    assert(COUNTRIES@[4]@ == "AI"@ && COUNTRIES@[5]@ == "AL"@);
    assert(ascending_from(4));
    assert(COUNTRIES@[3]@ == "AG"@ && COUNTRIES@[4]@ == "AI"@);
    assert(ascending_from(3));
    assert(COUNTRIES@[2]@ == "AF"@ && COUNTRIES@[3]@ == "AG"@);
    assert(ascending_from(2));
    assert(COUNTRIES@[1]@ == "AE"@ && COUNTRIES@[2]@ == "AF"@);
    assert(ascending_from(1));
    assert(COUNTRIES@[0]@ == "AD"@ && COUNTRIES@[1]@ == "AE"@);
    assert(ascending_from(0));
}

proof fn lemma_ascending_25_50()
    requires
        ascending_from(50),
    ensures
        ascending_from(25),
{
    reveal_strlit("BL");
    reveal_strlit("BM");
    reveal_strlit("BN");
    reveal_strlit("BO");
    reveal_strlit("BQ");
    reveal_strlit("BR");
    reveal_strlit("BS");
    reveal_strlit("BT");
    reveal_strlit("BV");
    reveal_strlit("BW");
    reveal_strlit("BY");
    reveal_strlit("BZ");
    reveal_strlit("CA");
    reveal_strlit("CC");
    reveal_strlit("CD");
    reveal_strlit("CF");
    reveal_strlit("CG");
    reveal_strlit("CH");
    reveal_strlit("CI");
    reveal_strlit("CK");
    reveal_strlit("CL");
    reveal_strlit("CM");
    reveal_strlit("CN");
    reveal_strlit("CO");
    reveal_strlit("CR");
    reveal_strlit("CU");
    assert(COUNTRIES@[49]@ == "CR"@ && COUNTRIES@[50]@ == "CU"@);
    assert(ascending_from(49));
    assert(COUNTRIES@[48]@ == "CO"@ && COUNTRIES@[49]@ == "CR"@);
    assert(ascending_from(48));
    assert(COUNTRIES@[47]@ == "CN"@ && COUNTRIES@[48]@ == "CO"@);
    assert(ascending_from(47));
    assert(COUNTRIES@[46]@ == "CM"@ && COUNTRIES@[47]@ == "CN"@);
    assert(ascending_from(46));
    assert(COUNTRIES@[45]@ == "CL"@ && COUNTRIES@[46]@ == "CM"@);
    assert(ascending_from(45));
    assert(COUNTRIES@[44]@ == "CK"@ && COUNTRIES@[45]@ == "CL"@);
    assert(ascending_from(44));
    assert(COUNTRIES@[43]@ == "CI"@ && COUNTRIES@[44]@ == "CK"@);
    assert(ascending_from(43));
    assert(COUNTRIES@[42]@ == "CH"@ && COUNTRIES@[43]@ == "CI"@);
    assert(ascending_from(42));
    assert(COUNTRIES@[41]@ == "CG"@ && COUNTRIES@[42]@ == "CH"@);
    assert(ascending_from(41));
    assert(COUNTRIES@[40]@ == "CF"@ && COUNTRIES@[41]@ == "CG"@);
    assert(ascending_from(40));
    assert(COUNTRIES@[39]@ == "CD"@ && COUNTRIES@[40]@ == "CF"@);
    assert(ascending_from(39));
    assert(COUNTRIES@[38]@ == "CC"@ && COUNTRIES@[39]@ == "CD"@);
    assert(ascending_from(38));
    assert(COUNTRIES@[37]@ == "CA"@ && COUNTRIES@[38]@ == "CC"@);
    assert(ascending_from(37));
    assert(COUNTRIES@[36]@ == "BZ"@ && COUNTRIES@[37]@ == "CA"@);
    assert(ascending_from(36));
    assert(COUNTRIES@[35]@ == "BY"@ && COUNTRIES@[36]@ == "BZ"@);
    assert(ascending_from(35));
    assert(COUNTRIES@[34]@ == "BW"@ && COUNTRIES@[35]@ == "BY"@);
    assert(ascending_from(34));
    assert(COUNTRIES@[33]@ == "BV"@ && COUNTRIES@[34]@ == "BW"@);
    assert(ascending_from(33));
    assert(COUNTRIES@[32]@ == "BT"@ && COUNTRIES@[33]@ == "BV"@);
    assert(ascending_from(32));
    assert(COUNTRIES@[31]@ == "BS"@ && COUNTRIES@[32]@ == "BT"@);
    assert(ascending_from(31));
    assert(COUNTRIES@[30]@ == "BR"@ && COUNTRIES@[31]@ == "BS"@);
    assert(ascending_from(30));
    assert(COUNTRIES@[29]@ == "BQ"@ && COUNTRIES@[30]@ == "BR"@);
    assert(ascending_from(29));
    assert(COUNTRIES@[28]@ == "BO"@ && COUNTRIES@[29]@ == "BQ"@);
    assert(ascending_from(28));
    assert(COUNTRIES@[27]@ == "BN"@ && COUNTRIES@[28]@ == "BO"@);
    assert(ascending_from(27));
    assert(COUNTRIES@[26]@ == "BM"@ && COUNTRIES@[27]@ == "BN"@);
    assert(ascending_from(26));
    assert(COUNTRIES@[25]@ == "BL"@ && COUNTRIES@[26]@ == "BM"@);
    assert(ascending_from(25));
}

proof fn lemma_ascending_50_75()
    requires
        ascending_from(75),
    ensures
        ascending_from(50),
{
    reveal_strlit("CU");
    reveal_strlit("CV");
    reveal_strlit("CW");
    reveal_strlit("CX");
    reveal_strlit("CY");
    reveal_strlit("CZ");
    reveal_strlit("DE");
    reveal_strlit("DJ");
    reveal_strlit("DK");
    reveal_strlit("DM");
    reveal_strlit("DO");
    reveal_strlit("DZ");
    reveal_strlit("EC");
    reveal_strlit("EE");
    reveal_strlit("EG");
    reveal_strlit("EH");
    reveal_strlit("ER");
    reveal_strlit("ES");
    reveal_strlit("ET");
    reveal_strlit("FI");
    reveal_strlit("FJ");
    reveal_strlit("FK");
    reveal_strlit("FM");
    reveal_strlit("FO");
    reveal_strlit("FR");
    reveal_strlit("GA");
    assert(COUNTRIES@[74]@ == "FR"@ && COUNTRIES@[75]@ == "GA"@);
    assert(ascending_from(74));
    assert(COUNTRIES@[73]@ == "FO"@ && COUNTRIES@[74]@ == "FR"@);
    assert(ascending_from(73));
    assert(COUNTRIES@[72]@ == "FM"@ && COUNTRIES@[73]@ == "FO"@);
    assert(ascending_from(72));
    assert(COUNTRIES@[71]@ == "FK"@ && COUNTRIES@[72]@ == "FM"@);
    assert(ascending_from(71));
    assert(COUNTRIES@[70]@ == "FJ"@ && COUNTRIES@[71]@ == "FK"@);
    assert(ascending_from(70));
    assert(COUNTRIES@[69]@ == "FI"@ && COUNTRIES@[70]@ == "FJ"@);
    assert(ascending_from(69));
    assert(COUNTRIES@[68]@ == "ET"@ && COUNTRIES@[69]@ == "FI"@);
    assert(ascending_from(68));
    assert(COUNTRIES@[67]@ == "ES"@ && COUNTRIES@[68]@ == "ET"@);
    assert(ascending_from(67));
    assert(COUNTRIES@[66]@ == "ER"@ && COUNTRIES@[67]@ == "ES"@);
    assert(ascending_from(66));
    assert(COUNTRIES@[65]@ == "EH"@ && COUNTRIES@[66]@ == "ER"@);
    assert(ascending_from(65));
    assert(COUNTRIES@[64]@ == "EG"@ && COUNTRIES@[65]@ == "EH"@);
    assert(ascending_from(64));
    assert(COUNTRIES@[63]@ == "EE"@ && COUNTRIES@[64]@ == "EG"@);
    assert(ascending_from(63));
    assert(COUNTRIES@[62]@ == "EC"@ && COUNTRIES@[63]@ == "EE"@);
    assert(ascending_from(62));
    assert(COUNTRIES@[61]@ == "DZ"@ && COUNTRIES@[62]@ == "EC"@);
    assert(ascending_from(61));
    assert(COUNTRIES@[60]@ == "DO"@ && COUNTRIES@[61]@ == "DZ"@);
    assert(ascending_from(60));
    assert(COUNTRIES@[59]@ == "DM"@ && COUNTRIES@[60]@ == "DO"@);
    assert(ascending_from(59));
    assert(COUNTRIES@[58]@ == "DK"@ && COUNTRIES@[59]@ == "DM"@);
    assert(ascending_from(58));
    assert(COUNTRIES@[57]@ == "DJ"@ && COUNTRIES@[58]@ == "DK"@);
    assert(ascending_from(57));
    assert(COUNTRIES@[56]@ == "DE"@ && COUNTRIES@[57]@ == "DJ"@);
    assert(ascending_from(56));
    assert(COUNTRIES@[55]@ == "CZ"@ && COUNTRIES@[56]@ == "DE"@);
    assert(ascending_from(55));
    assert(COUNTRIES@[54]@ == "CY"@ && COUNTRIES@[55]@ == "CZ"@);
    assert(ascending_from(54));
    assert(COUNTRIES@[53]@ == "CX"@ && COUNTRIES@[54]@ == "CY"@);
    assert(ascending_from(53));
    assert(COUNTRIES@[52]@ == "CW"@ && COUNTRIES@[53]@ == "CX"@);
    assert(ascending_from(52));
    assert(COUNTRIES@[51]@ == "CV"@ && COUNTRIES@[52]@ == "CW"@);
    assert(ascending_from(51));
    assert(COUNTRIES@[50]@ == "CU"@ && COUNTRIES@[51]@ == "CV"@);
    assert(ascending_from(50));
}

proof fn lemma_ascending_75_100()
    requires
        ascending_from(100),
    ensures
        ascending_from(75),
{
    reveal_strlit("GA");
    reveal_strlit("GB");
    reveal_strlit("GD");
    reveal_strlit("GE");
    reveal_strlit("GF");
    reveal_strlit("GG");
    reveal_strlit("GH");
    reveal_strlit("GI");
    reveal_strlit("GL");
    reveal_strlit("GM");
    reveal_strlit("GN");
    reveal_strlit("GP");
    reveal_strlit("GQ");
    reveal_strlit("GR");
    reveal_strlit("GS");
    reveal_strlit("GT");
    reveal_strlit("GU");
    reveal_strlit("GW");
    reveal_strlit("GY");
    reveal_strlit("HK");
    reveal_strlit("HM");
    reveal_strlit("HN");
    reveal_strlit("HR");
    reveal_strlit("HT");
    reveal_strlit("HU");
    reveal_strlit("ID");
    assert(COUNTRIES@[99]@ == "HU"@ && COUNTRIES@[100]@ == "ID"@);
    assert(ascending_from(99));
    assert(COUNTRIES@[98]@ == "HT"@ && COUNTRIES@[99]@ == "HU"@);
    assert(ascending_from(98));
    assert(COUNTRIES@[97]@ == "HR"@ && COUNTRIES@[98]@ == "HT"@);
    assert(ascending_from(97));
    assert(COUNTRIES@[96]@ == "HN"@ && COUNTRIES@[97]@ == "HR"@);
    assert(ascending_from(96));
    assert(COUNTRIES@[95]@ == "HM"@ && COUNTRIES@[96]@ == "HN"@);
    assert(ascending_from(95));
    assert(COUNTRIES@[94]@ == "HK"@ && COUNTRIES@[95]@ == "HM"@);
    assert(ascending_from(94));
    assert(COUNTRIES@[93]@ == "GY"@ && COUNTRIES@[94]@ == "HK"@);
    assert(ascending_from(93));
    assert(COUNTRIES@[92]@ == "GW"@ && COUNTRIES@[93]@ == "GY"@);
    assert(ascending_from(92));
    assert(COUNTRIES@[91]@ == "GU"@ && COUNTRIES@[92]@ == "GW"@);
    assert(ascending_from(91));
    assert(COUNTRIES@[90]@ == "GT"@ && COUNTRIES@[91]@ == "GU"@);
    assert(ascending_from(90));
    assert(COUNTRIES@[89]@ == "GS"@ && COUNTRIES@[90]@ == "GT"@);
    assert(ascending_from(89));
    assert(COUNTRIES@[88]@ == "GR"@ && COUNTRIES@[89]@ == "GS"@);
    assert(ascending_from(88));
    assert(COUNTRIES@[87]@ == "GQ"@ && COUNTRIES@[88]@ == "GR"@);
    assert(ascending_from(87));
    assert(COUNTRIES@[86]@ == "GP"@ && COUNTRIES@[87]@ == "GQ"@);
    assert(ascending_from(86));
    assert(COUNTRIES@[85]@ == "GN"@ && COUNTRIES@[86]@ == "GP"@);
    assert(ascending_from(85));
    assert(COUNTRIES@[84]@ == "GM"@ && COUNTRIES@[85]@ == "GN"@);
    assert(ascending_from(84));
    assert(COUNTRIES@[83]@ == "GL"@ && COUNTRIES@[84]@ == "GM"@);
    assert(ascending_from(83));
    assert(COUNTRIES@[82]@ == "GI"@ && COUNTRIES@[83]@ == "GL"@);
    assert(ascending_from(82));
    assert(COUNTRIES@[81]@ == "GH"@ && COUNTRIES@[82]@ == "GI"@);
    assert(ascending_from(81));
    assert(COUNTRIES@[80]@ == "GG"@ && COUNTRIES@[81]@ == "GH"@);
    assert(ascending_from(80));
    assert(COUNTRIES@[79]@ == "GF"@ && COUNTRIES@[80]@ == "GG"@);
    assert(ascending_from(79));
    assert(COUNTRIES@[78]@ == "GE"@ && COUNTRIES@[79]@ == "GF"@);
    assert(ascending_from(78));
    assert(COUNTRIES@[77]@ == "GD"@ && COUNTRIES@[78]@ == "GE"@);
    assert(ascending_from(77));
    assert(COUNTRIES@[76]@ == "GB"@ && COUNTRIES@[77]@ == "GD"@);
    assert(ascending_from(76));
    assert(COUNTRIES@[75]@ == "GA"@ && COUNTRIES@[76]@ == "GB"@);
    assert(ascending_from(75));
}

proof fn lemma_ascending_100_125()
    requires
        ascending_from(125),
    ensures
        ascending_from(100),
{
    reveal_strlit("ID");
    reveal_strlit("IE");
    reveal_strlit("IL");
    reveal_strlit("IM");
    reveal_strlit("IN");
    reveal_strlit("IO");
    reveal_strlit("IQ");
    reveal_strlit("IR");
    reveal_strlit("IS");
    reveal_strlit("IT");
    reveal_strlit("JE");
    reveal_strlit("JM");
    reveal_strlit("JO");
    reveal_strlit("JP");
    reveal_strlit("KE");
    reveal_strlit("KG");
    reveal_strlit("KH");
    reveal_strlit("KI");
    reveal_strlit("KM");
    reveal_strlit("KN");
    reveal_strlit("KP");
    reveal_strlit("KR");
    reveal_strlit("KW");
    reveal_strlit("KY");
    reveal_strlit("KZ");
    reveal_strlit("LA");
    assert(COUNTRIES@[124]@ == "KZ"@ && COUNTRIES@[125]@ == "LA"@);
    assert(ascending_from(124));
    assert(COUNTRIES@[123]@ == "KY"@ && COUNTRIES@[124]@ == "KZ"@);
    assert(ascending_from(123));
    assert(COUNTRIES@[122]@ == "KW"@ && COUNTRIES@[123]@ == "KY"@);
    assert(ascending_from(122));
    assert(COUNTRIES@[121]@ == "KR"@ && COUNTRIES@[122]@ == "KW"@);
    assert(ascending_from(121));
    assert(COUNTRIES@[120]@ == "KP"@ && COUNTRIES@[121]@ == "KR"@);
    assert(ascending_from(120));
    assert(COUNTRIES@[119]@ == "KN"@ && COUNTRIES@[120]@ == "KP"@);
    assert(ascending_from(119));
    assert(COUNTRIES@[118]@ == "KM"@ && COUNTRIES@[119]@ == "KN"@);
    assert(ascending_from(118));
    assert(COUNTRIES@[117]@ == "KI"@ && COUNTRIES@[118]@ == "KM"@);
    assert(ascending_from(117));
    assert(COUNTRIES@[116]@ == "KH"@ && COUNTRIES@[117]@ == "KI"@);
    assert(ascending_from(116));
    assert(COUNTRIES@[115]@ == "KG"@ && COUNTRIES@[116]@ == "KH"@);
    assert(ascending_from(115));
    assert(COUNTRIES@[114]@ == "KE"@ && COUNTRIES@[115]@ == "KG"@);
    assert(ascending_from(114));
    assert(COUNTRIES@[113]@ == "JP"@ && COUNTRIES@[114]@ == "KE"@);
    assert(ascending_from(113));
    assert(COUNTRIES@[112]@ == "JO"@ && COUNTRIES@[113]@ == "JP"@);
    assert(ascending_from(112));
    assert(COUNTRIES@[111]@ == "JM"@ && COUNTRIES@[112]@ == "JO"@);
    assert(ascending_from(111));
    assert(COUNTRIES@[110]@ == "JE"@ && COUNTRIES@[111]@ == "JM"@);
    assert(ascending_from(110));
    assert(COUNTRIES@[109]@ == "IT"@ && COUNTRIES@[110]@ == "JE"@);
    assert(ascending_from(109));
    assert(COUNTRIES@[108]@ == "IS"@ && COUNTRIES@[109]@ == "IT"@);
    assert(ascending_from(108));
    assert(COUNTRIES@[107]@ == "IR"@ && COUNTRIES@[108]@ == "IS"@);
    assert(ascending_from(107));
    assert(COUNTRIES@[106]@ == "IQ"@ && COUNTRIES@[107]@ == "IR"@);
    assert(ascending_from(106));
    assert(COUNTRIES@[105]@ == "IO"@ && COUNTRIES@[106]@ == "IQ"@);
    assert(ascending_from(105));
    assert(COUNTRIES@[104]@ == "IN"@ && COUNTRIES@[105]@ == "IO"@);
    assert(ascending_from(104));
    assert(COUNTRIES@[103]@ == "IM"@ && COUNTRIES@[104]@ == "IN"@);
    assert(ascending_from(103));
    assert(COUNTRIES@[102]@ == "IL"@ && COUNTRIES@[103]@ == "IM"@);
    assert(ascending_from(102));
    assert(COUNTRIES@[101]@ == "IE"@ && COUNTRIES@[102]@ == "IL"@);
    assert(ascending_from(101));
    assert(COUNTRIES@[100]@ == "ID"@ && COUNTRIES@[101]@ == "IE"@);
    assert(ascending_from(100));
}

proof fn lemma_ascending_125_150()
    requires
        ascending_from(150),
    ensures
        ascending_from(125),
{
    reveal_strlit("LA");
    reveal_strlit("LB");
    reveal_strlit("LC");
    reveal_strlit("LI");
    reveal_strlit("LK");
    reveal_strlit("LR");
    reveal_strlit("LS");
    reveal_strlit("LT");
    reveal_strlit("LU");
    reveal_strlit("LV");
    reveal_strlit("LY");
    reveal_strlit("MA");
    reveal_strlit("MC");
    reveal_strlit("MD");
    reveal_strlit("ME");
    reveal_strlit("MF");
    reveal_strlit("MG");
    reveal_strlit("MH");
    reveal_strlit("MK");
    reveal_strlit("ML");
    reveal_strlit("MM");
    reveal_strlit("MN");
    reveal_strlit("MO");
    reveal_strlit("MP");
    reveal_strlit("MQ");
    reveal_strlit("MR");
    assert(COUNTRIES@[149]@ == "MQ"@ && COUNTRIES@[150]@ == "MR"@);
    assert(ascending_from(149));
    assert(COUNTRIES@[148]@ == "MP"@ && COUNTRIES@[149]@ == "MQ"@);
    assert(ascending_from(148));
    assert(COUNTRIES@[147]@ == "MO"@ && COUNTRIES@[148]@ == "MP"@);
    assert(ascending_from(147));
    assert(COUNTRIES@[146]@ == "MN"@ && COUNTRIES@[147]@ == "MO"@);
    assert(ascending_from(146));
    assert(COUNTRIES@[145]@ == "MM"@ && COUNTRIES@[146]@ == "MN"@);
    assert(ascending_from(145));
    assert(COUNTRIES@[144]@ == "ML"@ && COUNTRIES@[145]@ == "MM"@);
    assert(ascending_from(144));
    assert(COUNTRIES@[143]@ == "MK"@ && COUNTRIES@[144]@ == "ML"@);
    assert(ascending_from(143));
    assert(COUNTRIES@[142]@ == "MH"@ && COUNTRIES@[143]@ == "MK"@);
    assert(ascending_from(142));
    assert(COUNTRIES@[141]@ == "MG"@ && COUNTRIES@[142]@ == "MH"@);
    assert(ascending_from(141));
    assert(COUNTRIES@[140]@ == "MF"@ && COUNTRIES@[141]@ == "MG"@);
    assert(ascending_from(140));
    assert(COUNTRIES@[139]@ == "ME"@ && COUNTRIES@[140]@ == "MF"@);
    assert(ascending_from(139));
    assert(COUNTRIES@[138]@ == "MD"@ && COUNTRIES@[139]@ == "ME"@);
    assert(ascending_from(138));
    assert(COUNTRIES@[137]@ == "MC"@ && COUNTRIES@[138]@ == "MD"@);
    assert(ascending_from(137));
    assert(COUNTRIES@[136]@ == "MA"@ && COUNTRIES@[137]@ == "MC"@);
    assert(ascending_from(136));
    assert(COUNTRIES@[135]@ == "LY"@ && COUNTRIES@[136]@ == "MA"@);
    assert(ascending_from(135));
    assert(COUNTRIES@[134]@ == "LV"@ && COUNTRIES@[135]@ == "LY"@);
    assert(ascending_from(134));
    assert(COUNTRIES@[133]@ == "LU"@ && COUNTRIES@[134]@ == "LV"@);
    assert(ascending_from(133));
    assert(COUNTRIES@[132]@ == "LT"@ && COUNTRIES@[133]@ == "LU"@);
    assert(ascending_from(132));
    assert(COUNTRIES@[131]@ == "LS"@ && COUNTRIES@[132]@ == "LT"@);
    assert(ascending_from(131));
    assert(COUNTRIES@[130]@ == "LR"@ && COUNTRIES@[131]@ == "LS"@);
    assert(ascending_from(130));
    assert(COUNTRIES@[129]@ == "LK"@ && COUNTRIES@[130]@ == "LR"@);
    assert(ascending_from(129));
    assert(COUNTRIES@[128]@ == "LI"@ && COUNTRIES@[129]@ == "LK"@);
    assert(ascending_from(128));
    assert(COUNTRIES@[127]@ == "LC"@ && COUNTRIES@[128]@ == "LI"@);
    assert(ascending_from(127));
    assert(COUNTRIES@[126]@ == "LB"@ && COUNTRIES@[127]@ == "LC"@);
    assert(ascending_from(126));
    assert(COUNTRIES@[125]@ == "LA"@ && COUNTRIES@[126]@ == "LB"@);
    assert(ascending_from(125));
}

proof fn lemma_ascending_150_175()
    requires
        ascending_from(175),
    ensures
        ascending_from(150),
{
    reveal_strlit("MR");
    reveal_strlit("MS");
    reveal_strlit("MT");
    reveal_strlit("MU");
    reveal_strlit("MV");
    reveal_strlit("MW");
    reveal_strlit("MX");
    reveal_strlit("MY");
    reveal_strlit("MZ");
    reveal_strlit("NA");
    reveal_strlit("NC");
    reveal_strlit("NE");
    reveal_strlit("NF");
    reveal_strlit("NG");
    reveal_strlit("NI");
    reveal_strlit("NL");
    reveal_strlit("NO");
    reveal_strlit("NP");
    reveal_strlit("NR");
    reveal_strlit("NU");
    reveal_strlit("NZ");
    reveal_strlit("OM");
    reveal_strlit("PA");
    reveal_strlit("PE");
    reveal_strlit("PF");
    reveal_strlit("PG");
    assert(COUNTRIES@[174]@ == "PF"@ && COUNTRIES@[175]@ == "PG"@);
    assert(ascending_from(174));
    assert(COUNTRIES@[173]@ == "PE"@ && COUNTRIES@[174]@ == "PF"@);
    assert(ascending_from(173));
    assert(COUNTRIES@[172]@ == "PA"@ && COUNTRIES@[173]@ == "PE"@);
    assert(ascending_from(172));
    assert(COUNTRIES@[171]@ == "OM"@ && COUNTRIES@[172]@ == "PA"@);
    assert(ascending_from(171));
    assert(COUNTRIES@[170]@ == "NZ"@ && COUNTRIES@[171]@ == "OM"@);
    assert(ascending_from(170));
    assert(COUNTRIES@[169]@ == "NU"@ && COUNTRIES@[170]@ == "NZ"@);
    assert(ascending_from(169));
    assert(COUNTRIES@[168]@ == "NR"@ && COUNTRIES@[169]@ == "NU"@);
    assert(ascending_from(168));
    assert(COUNTRIES@[167]@ == "NP"@ && COUNTRIES@[168]@ == "NR"@);
    assert(ascending_from(167));
    assert(COUNTRIES@[166]@ == "NO"@ && COUNTRIES@[167]@ == "NP"@);
    assert(ascending_from(166));
    assert(COUNTRIES@[165]@ == "NL"@ && COUNTRIES@[166]@ == "NO"@);
    assert(ascending_from(165));
    assert(COUNTRIES@[164]@ == "NI"@ && COUNTRIES@[165]@ == "NL"@);
    assert(ascending_from(164));
    assert(COUNTRIES@[163]@ == "NG"@ && COUNTRIES@[164]@ == "NI"@);
    assert(ascending_from(163));
    assert(COUNTRIES@[162]@ == "NF"@ && COUNTRIES@[163]@ == "NG"@);
    assert(ascending_from(162));
    assert(COUNTRIES@[161]@ == "NE"@ && COUNTRIES@[162]@ == "NF"@);
    assert(ascending_from(161));
    assert(COUNTRIES@[160]@ == "NC"@ && COUNTRIES@[161]@ == "NE"@);
    assert(ascending_from(160));
    assert(COUNTRIES@[159]@ == "NA"@ && COUNTRIES@[160]@ == "NC"@);
    assert(ascending_from(159));
    assert(COUNTRIES@[158]@ == "MZ"@ && COUNTRIES@[159]@ == "NA"@);
    assert(ascending_from(158));
    assert(COUNTRIES@[157]@ == "MY"@ && COUNTRIES@[158]@ == "MZ"@);
    assert(ascending_from(157));
    assert(COUNTRIES@[156]@ == "MX"@ && COUNTRIES@[157]@ == "MY"@);
    assert(ascending_from(156));
    assert(COUNTRIES@[155]@ == "MW"@ && COUNTRIES@[156]@ == "MX"@);
    assert(ascending_from(155));
    assert(COUNTRIES@[154]@ == "MV"@ && COUNTRIES@[155]@ == "MW"@);
    assert(ascending_from(154));
    assert(COUNTRIES@[153]@ == "MU"@ && COUNTRIES@[154]@ == "MV"@);
    assert(ascending_from(153));
    assert(COUNTRIES@[152]@ == "MT"@ && COUNTRIES@[153]@ == "MU"@);
    assert(ascending_from(152));
    assert(COUNTRIES@[151]@ == "MS"@ && COUNTRIES@[152]@ == "MT"@);
    assert(ascending_from(151));
    assert(COUNTRIES@[150]@ == "MR"@ && COUNTRIES@[151]@ == "MS"@);
    assert(ascending_from(150));
}

proof fn lemma_ascending_175_200()
    requires
        ascending_from(200),
    ensures
        ascending_from(175),
{
    reveal_strlit("PG");
    reveal_strlit("PH");
    reveal_strlit("PK");
    reveal_strlit("PL");
    reveal_strlit("PM");
    reveal_strlit("PN");
    reveal_strlit("PR");
    reveal_strlit("PS");
    reveal_strlit("PT");
    reveal_strlit("PW");
    reveal_strlit("PY");
    reveal_strlit("QA");
    reveal_strlit("RE");
    reveal_strlit("RO");
    reveal_strlit("RS");
    reveal_strlit("RU");
    reveal_strlit("RW");
    reveal_strlit("SA");
    reveal_strlit("SB");
    reveal_strlit("SC");
    reveal_strlit("SD");
    reveal_strlit("SE");
    reveal_strlit("SG");
    reveal_strlit("SH");
    reveal_strlit("SI");
    reveal_strlit("SJ");
    assert(COUNTRIES@[199]@ == "SI"@ && COUNTRIES@[200]@ == "SJ"@);
    assert(ascending_from(199));
    assert(COUNTRIES@[198]@ == "SH"@ && COUNTRIES@[199]@ == "SI"@);
    assert(ascending_from(198));
    assert(COUNTRIES@[197]@ == "SG"@ && COUNTRIES@[198]@ == "SH"@);
    assert(ascending_from(197));
    assert(COUNTRIES@[196]@ == "SE"@ && COUNTRIES@[197]@ == "SG"@);
    assert(ascending_from(196));
    assert(COUNTRIES@[195]@ == "SD"@ && COUNTRIES@[196]@ == "SE"@);
    assert(ascending_from(195));
    assert(COUNTRIES@[194]@ == "SC"@ && COUNTRIES@[195]@ == "SD"@);
    assert(ascending_from(194));
    assert(COUNTRIES@[193]@ == "SB"@ && COUNTRIES@[194]@ == "SC"@);
    assert(ascending_from(193));
    assert(COUNTRIES@[192]@ == "SA"@ && COUNTRIES@[193]@ == "SB"@);
    assert(ascending_from(192));
    assert(COUNTRIES@[191]@ == "RW"@ && COUNTRIES@[192]@ == "SA"@);
    assert(ascending_from(191));
    assert(COUNTRIES@[190]@ == "RU"@ && COUNTRIES@[191]@ == "RW"@);
    assert(ascending_from(190));
    assert(COUNTRIES@[189]@ == "RS"@ && COUNTRIES@[190]@ == "RU"@);
    assert(ascending_from(189));
    assert(COUNTRIES@[188]@ == "RO"@ && COUNTRIES@[189]@ == "RS"@);
    assert(ascending_from(188));
    assert(COUNTRIES@[187]@ == "RE"@ && COUNTRIES@[188]@ == "RO"@);
    assert(ascending_from(187));
    assert(COUNTRIES@[186]@ == "QA"@ && COUNTRIES@[187]@ == "RE"@);
    assert(ascending_from(186));
    assert(COUNTRIES@[185]@ == "PY"@ && COUNTRIES@[186]@ == "QA"@);
    assert(ascending_from(185));
    assert(COUNTRIES@[184]@ == "PW"@ && COUNTRIES@[185]@ == "PY"@);
    assert(ascending_from(184));
    assert(COUNTRIES@[183]@ == "PT"@ && COUNTRIES@[184]@ == "PW"@);
    assert(ascending_from(183));
    assert(COUNTRIES@[182]@ == "PS"@ && COUNTRIES@[183]@ == "PT"@);
    assert(ascending_from(182));
    assert(COUNTRIES@[181]@ == "PR"@ && COUNTRIES@[182]@ == "PS"@);
    assert(ascending_from(181));
    assert(COUNTRIES@[180]@ == "PN"@ && COUNTRIES@[181]@ == "PR"@);
    assert(ascending_from(180));
    assert(COUNTRIES@[179]@ == "PM"@ && COUNTRIES@[180]@ == "PN"@);
    assert(ascending_from(179));
    assert(COUNTRIES@[178]@ == "PL"@ && COUNTRIES@[179]@ == "PM"@);
    assert(ascending_from(178));
    assert(COUNTRIES@[177]@ == "PK"@ && COUNTRIES@[178]@ == "PL"@);
    assert(ascending_from(177));
    assert(COUNTRIES@[176]@ == "PH"@ && COUNTRIES@[177]@ == "PK"@);
    assert(ascending_from(176));
    assert(COUNTRIES@[175]@ == "PG"@ && COUNTRIES@[176]@ == "PH"@);
    assert(ascending_from(175));
}

proof fn lemma_ascending_200_225()
    requires
        ascending_from(225),
    ensures
        ascending_from(200),
{
    reveal_strlit("SJ");
    reveal_strlit("SK");
    reveal_strlit("SL");
    reveal_strlit("SM");
    reveal_strlit("SN");
    reveal_strlit("SO");
    reveal_strlit("SR");
    reveal_strlit("SS");
    reveal_strlit("ST");
    reveal_strlit("SV");
    reveal_strlit("SX");
    reveal_strlit("SY");
    reveal_strlit("SZ");
    reveal_strlit("TC");
    reveal_strlit("TD");
    reveal_strlit("TF");
    reveal_strlit("TG");
    reveal_strlit("TH");
    reveal_strlit("TJ");
    reveal_strlit("TK");
    reveal_strlit("TL");
    reveal_strlit("TM");
    reveal_strlit("TN");
    reveal_strlit("TO");
    reveal_strlit("TR");
    reveal_strlit("TT");
    assert(COUNTRIES@[224]@ == "TR"@ && COUNTRIES@[225]@ == "TT"@);
    assert(ascending_from(224));
    assert(COUNTRIES@[223]@ == "TO"@ && COUNTRIES@[224]@ == "TR"@);
    assert(ascending_from(223));
    assert(COUNTRIES@[222]@ == "TN"@ && COUNTRIES@[223]@ == "TO"@);
    assert(ascending_from(222));
    assert(COUNTRIES@[221]@ == "TM"@ && COUNTRIES@[222]@ == "TN"@);
    assert(ascending_from(221));
    assert(COUNTRIES@[220]@ == "TL"@ && COUNTRIES@[221]@ == "TM"@);
    assert(ascending_from(220));
    assert(COUNTRIES@[219]@ == "TK"@ && COUNTRIES@[220]@ == "TL"@);
    assert(ascending_from(219));
    assert(COUNTRIES@[218]@ == "TJ"@ && COUNTRIES@[219]@ == "TK"@);
    assert(ascending_from(218));
    assert(COUNTRIES@[217]@ == "TH"@ && COUNTRIES@[218]@ == "TJ"@);
    assert(ascending_from(217));
    assert(COUNTRIES@[216]@ == "TG"@ && COUNTRIES@[217]@ == "TH"@);
    assert(ascending_from(216));
    assert(COUNTRIES@[215]@ == "TF"@ && COUNTRIES@[216]@ == "TG"@);
    assert(ascending_from(215));
    assert(COUNTRIES@[214]@ == "TD"@ && COUNTRIES@[215]@ == "TF"@);
    assert(ascending_from(214));
    assert(COUNTRIES@[213]@ == "TC"@ && COUNTRIES@[214]@ == "TD"@);
    assert(ascending_from(213));
    assert(COUNTRIES@[212]@ == "SZ"@ && COUNTRIES@[213]@ == "TC"@);
    assert(ascending_from(212));
    assert(COUNTRIES@[211]@ == "SY"@ && COUNTRIES@[212]@ == "SZ"@);
    assert(ascending_from(211));
    assert(COUNTRIES@[210]@ == "SX"@ && COUNTRIES@[211]@ == "SY"@);
    assert(ascending_from(210));
    assert(COUNTRIES@[209]@ == "SV"@ && COUNTRIES@[210]@ == "SX"@);
    assert(ascending_from(209));
    assert(COUNTRIES@[208]@ == "ST"@ && COUNTRIES@[209]@ == "SV"@);
    assert(ascending_from(208));
    assert(COUNTRIES@[207]@ == "SS"@ && COUNTRIES@[208]@ == "ST"@);
    assert(ascending_from(207));
    assert(COUNTRIES@[206]@ == "SR"@ && COUNTRIES@[207]@ == "SS"@);
    assert(ascending_from(206));
    assert(COUNTRIES@[205]@ == "SO"@ && COUNTRIES@[206]@ == "SR"@);
    assert(ascending_from(205));
    assert(COUNTRIES@[204]@ == "SN"@ && COUNTRIES@[205]@ == "SO"@);
    assert(ascending_from(204));
    assert(COUNTRIES@[203]@ == "SM"@ && COUNTRIES@[204]@ == "SN"@);
    assert(ascending_from(203));
    assert(COUNTRIES@[202]@ == "SL"@ && COUNTRIES@[203]@ == "SM"@);
    assert(ascending_from(202));
    assert(COUNTRIES@[201]@ == "SK"@ && COUNTRIES@[202]@ == "SL"@);
    assert(ascending_from(201));
    assert(COUNTRIES@[200]@ == "SJ"@ && COUNTRIES@[201]@ == "SK"@);
    assert(ascending_from(200));
}

proof fn lemma_ascending_225_249()
    ensures
        ascending_from(225),
{
    reveal_strlit("TT");
    reveal_strlit("TV");
    reveal_strlit("TW");
    reveal_strlit("TZ");
    reveal_strlit("UA");
    reveal_strlit("UG");
    reveal_strlit("UM");
    reveal_strlit("US");
    reveal_strlit("UY");
    reveal_strlit("UZ");
    reveal_strlit("VA");
    reveal_strlit("VC");
    reveal_strlit("VE");
    reveal_strlit("VG");
    reveal_strlit("VI");
    reveal_strlit("VN");
    reveal_strlit("VU");
    reveal_strlit("WF");
    reveal_strlit("WS");
    reveal_strlit("XK");
    reveal_strlit("YE");
    reveal_strlit("YT");
    reveal_strlit("ZA");
    reveal_strlit("ZM");
    reveal_strlit("ZW");
    assert(ascending_from(249));
    assert(COUNTRIES@[248]@ == "ZM"@ && COUNTRIES@[249]@ == "ZW"@);
    assert(ascending_from(248));
    assert(COUNTRIES@[247]@ == "ZA"@ && COUNTRIES@[248]@ == "ZM"@);
    assert(ascending_from(247));
    assert(COUNTRIES@[246]@ == "YT"@ && COUNTRIES@[247]@ == "ZA"@);
    assert(ascending_from(246));
    assert(COUNTRIES@[245]@ == "YE"@ && COUNTRIES@[246]@ == "YT"@);
    assert(ascending_from(245));
    assert(COUNTRIES@[244]@ == "XK"@ && COUNTRIES@[245]@ == "YE"@);
    assert(ascending_from(244));
    assert(COUNTRIES@[243]@ == "WS"@ && COUNTRIES@[244]@ == "XK"@);
    assert(ascending_from(243));
    assert(COUNTRIES@[242]@ == "WF"@ && COUNTRIES@[243]@ == "WS"@);
    assert(ascending_from(242));
    assert(COUNTRIES@[241]@ == "VU"@ && COUNTRIES@[242]@ == "WF"@);
    assert(ascending_from(241));
    assert(COUNTRIES@[240]@ == "VN"@ && COUNTRIES@[241]@ == "VU"@);
    assert(ascending_from(240));
    assert(COUNTRIES@[239]@ == "VI"@ && COUNTRIES@[240]@ == "VN"@);
    assert(ascending_from(239));
    assert(COUNTRIES@[238]@ == "VG"@ && COUNTRIES@[239]@ == "VI"@);
    assert(ascending_from(238));
    assert(COUNTRIES@[237]@ == "VE"@ && COUNTRIES@[238]@ == "VG"@);
    assert(ascending_from(237));
    assert(COUNTRIES@[236]@ == "VC"@ && COUNTRIES@[237]@ == "VE"@);
    assert(ascending_from(236));
    assert(COUNTRIES@[235]@ == "VA"@ && COUNTRIES@[236]@ == "VC"@);
    assert(ascending_from(235));
    assert(COUNTRIES@[234]@ == "UZ"@ && COUNTRIES@[235]@ == "VA"@);
    assert(ascending_from(234));
    assert(COUNTRIES@[233]@ == "UY"@ && COUNTRIES@[234]@ == "UZ"@);
    assert(ascending_from(233));
    assert(COUNTRIES@[232]@ == "US"@ && COUNTRIES@[233]@ == "UY"@);
    assert(ascending_from(232));
    assert(COUNTRIES@[231]@ == "UM"@ && COUNTRIES@[232]@ == "US"@);
    assert(ascending_from(231));
    assert(COUNTRIES@[230]@ == "UG"@ && COUNTRIES@[231]@ == "UM"@);
    assert(ascending_from(230));
    assert(COUNTRIES@[229]@ == "UA"@ && COUNTRIES@[230]@ == "UG"@);
    assert(ascending_from(229));
    assert(COUNTRIES@[228]@ == "TZ"@ && COUNTRIES@[229]@ == "UA"@);
    assert(ascending_from(228));
    assert(COUNTRIES@[227]@ == "TW"@ && COUNTRIES@[228]@ == "TZ"@);
    assert(ascending_from(227));
    assert(COUNTRIES@[226]@ == "TV"@ && COUNTRIES@[227]@ == "TW"@);
    assert(ascending_from(226));
    assert(COUNTRIES@[225]@ == "TT"@ && COUNTRIES@[226]@ == "TV"@);
    assert(ascending_from(225));
}

/// The table of codes ascends from its first entry.
proof fn lemma_countries_ascending()
    ensures
        ascending_from(0),
{
    lemma_ascending_225_249();
    lemma_ascending_200_225();
    lemma_ascending_175_200();
    lemma_ascending_150_175();
    lemma_ascending_125_150();
    lemma_ascending_100_125();
    lemma_ascending_75_100();
    lemma_ascending_50_75();
    lemma_ascending_25_50();
    lemma_ascending_0_25();
}

/// From an ascending position on, every code is below every later one.
proof fn lemma_ascending_pairs(i: nat)
    requires
        i < COUNTRY_COUNT,
        ascending_from(i),
    ensures
        forall|j: int, l: int| i <= j < l < COUNTRY_COUNT ==> code_key(COUNTRIES@[j]@) < code_key(COUNTRIES@[l]@),
    decreases COUNTRY_COUNT - i,
{
    if i + 1 < COUNTRY_COUNT {
        lemma_ascending_pairs(i + 1);
        assert forall|j: int, l: int| i <= j < l < COUNTRY_COUNT implies code_key(COUNTRIES@[j]@) < code_key(
            COUNTRIES@[l]@,
        ) by {
            if j == i && l > i + 1 {
                assert(code_key(COUNTRIES@[i + 1 as int]@) < code_key(COUNTRIES@[l]@));
            }
        }
    }
}

/// No two entries of the table hold the same code.
pub proof fn lemma_countries_distinct()
    ensures
        forall|j: int, l: int| 0 <= j < l < COUNTRY_COUNT ==> (#[trigger] COUNTRIES@[j])@ != (#[trigger] COUNTRIES@[l])@,
{
    lemma_countries_ascending();
    lemma_ascending_pairs(0);
    assert forall|j: int, l: int| 0 <= j < l < COUNTRY_COUNT implies (#[trigger] COUNTRIES@[j])@ != (
    #[trigger] COUNTRIES@[l])@ by {
        assert(code_key(COUNTRIES@[j]@) < code_key(COUNTRIES@[l]@));
    }
}

/// An id that names a country maps back to itself: the id of the code of
/// `id` is `id`. The unknown id 0 and ids past the table have no code.
pub proof fn lemma_country_id_roundtrip(id: u8)
    ensures
        1 <= id <= COUNTRY_COUNT ==> (country_iso_spec(id) matches Some(code) && country_id_spec(code) == id),
        !(1 <= id <= COUNTRY_COUNT) ==> country_iso_spec(id) is None,
{
    if 1 <= id <= COUNTRY_COUNT {
        lemma_countries_distinct();
        let i = id - 1;
        let code = COUNTRIES@[i]@;
        assert forall|j: int| 0 <= j < i implies (#[trigger] COUNTRIES@[j])@ != code by {
            assert(COUNTRIES@[j]@ != COUNTRIES@[i]@);
        }
        assert(is_first_match(code, i));
        lemma_first_match_unique(code, i);
    }
}

} // verus!
