//! The "One more" milestone phrase in many languages: a fixed table, one
//! entry of which is drawn at random.

use vstd::prelude::*;
use rand::Rng;

verus! {

/// How many translations the table holds.
pub const ONE_MORE_COUNT: usize = 98;

/// The table entry at the given index: the phrase and the language it is
/// written in. Indices beyond the table fall back to the first entry.
pub open spec fn one_more_entry(i: int) -> (Seq<char>, Seq<char>) {
    if i == 0 {
        ("One more"@, "English"@)
    } else
    if i == 1 {
        ("Uno más"@, "Spanish"@)
    } else
    if i == 2 {
        ("Un de plus"@, "French"@)
    } else
    if i == 3 {
        ("Noch einer"@, "German"@)
    } else
    if i == 4 {
        ("Еще один"@, "Russian"@)
    } else
    if i == 5 {
        ("Ancora uno"@, "Italian"@)
    } else
    if i == 6 {
        ("Mais um"@, "Portuguese"@)
    } else
    if i == 7 {
        ("Jeszcze jeden"@, "Polish"@)
    } else
    if i == 8 {
        ("Încă unul"@, "Romanian"@)
    } else
    if i == 9 {
        ("Ще один"@, "Ukrainian"@)
    } else
    if i == 10 {
        ("Ještě jeden"@, "Czech"@)
    } else
    if i == 11 {
        ("Ešte jeden"@, "Slovak"@)
    } else
    if i == 12 {
        ("Još jedan"@, "Croatian/Serbian/Bosnian"@)
    } else
    if i == 13 {
        ("Още един"@, "Bulgarian"@)
    } else
    if i == 14 {
        ("Ένας ακόμα"@, "Greek"@)
    } else
    if i == 15 {
        ("Een meer"@, "Dutch"@)
    } else
    if i == 16 {
        ("En till"@, "Swedish"@)
    } else
    if i == 17 {
        ("En til"@, "Norwegian"@)
    } else
    if i == 18 {
        ("Én mere"@, "Danish"@)
    } else
    if i == 19 {
        ("Yksi lisää"@, "Finnish"@)
    } else
    if i == 20 {
        ("Még egy"@, "Hungarian"@)
    } else
    if i == 21 {
        ("Vienas daugiau"@, "Lithuanian"@)
    } else
    if i == 22 {
        ("Vēl viens"@, "Latvian"@)
    } else
    if i == 23 {
        ("Üks veel"@, "Estonian"@)
    } else
    if i == 24 {
        ("Eitt til"@, "Icelandic"@)
    } else
    if i == 25 {
        ("یکی دیگر"@, "Persian"@)
    } else
    if i == 26 {
        ("एक और"@, "Hindi"@)
    } else
    if i == 27 {
        ("আরও একটি"@, "Bengali"@)
    } else
    if i == 28 {
        ("ایک اور"@, "Urdu"@)
    } else
    if i == 29 {
        ("ਇੱਕ ਹੋਰ"@, "Punjabi"@)
    } else
    if i == 30 {
        ("એક વધુ"@, "Gujarati"@)
    } else
    if i == 31 {
        ("ಇನ್ನೂ ಒಂದು"@, "Kannada"@)
    } else
    if i == 32 {
        ("ఇంకా ఒకటి"@, "Telugu"@)
    } else
    if i == 33 {
        ("இன்னும் ஒன்று"@, "Tamil"@)
    } else
    if i == 34 {
        ("ഒന്നുകൂടി"@, "Malayalam"@)
    } else
    if i == 35 {
        ("තවත් එකක්"@, "Sinhala"@)
    } else
    if i == 36 {
        ("再来一个"@, "Chinese Simplified"@)
    } else
    if i == 37 {
        ("再來一個"@, "Chinese Traditional"@)
    } else
    if i == 38 {
        ("もう一つ"@, "Japanese"@)
    } else
    if i == 39 {
        ("하나 더"@, "Korean"@)
    } else
    if i == 40 {
        ("နောက်တစ်ခု"@, "Burmese"@)
    } else
    if i == 41 {
        ("ཡང་གཅིག"@, "Tibetan"@)
    } else
    if i == 42 {
        ("עוד אחד"@, "Hebrew"@)
    } else
    if i == 43 {
        ("واحد آخر"@, "Arabic"@)
    } else
    if i == 44 {
        ("ሌላ አንድ"@, "Amharic"@)
    } else
    if i == 45 {
        ("Bir tane daha"@, "Turkish"@)
    } else
    if i == 46 {
        ("Тағы бір"@, "Kazakh"@)
    } else
    if i == 47 {
        ("Yana bitta"@, "Uzbek"@)
    } else
    if i == 48 {
        ("Дагы бир"@, "Kyrgyz"@)
    } else
    if i == 49 {
        ("Yana bir"@, "Azerbaijani"@)
    } else
    if i == 50 {
        ("Тагы бер"@, "Tatar"@)
    } else
    if i == 51 {
        ("Ọkan sii"@, "Yoruba"@)
    } else
    if i == 52 {
        ("Otu ọzọ"@, "Igbo"@)
    } else
    if i == 53 {
        ("Chimodzi china"@, "Chichewa"@)
    } else
    if i == 54 {
        ("Bumwe"@, "Shona"@)
    } else
    if i == 55 {
        ("Moja zaidi"@, "Swahili"@)
    } else
    if i == 56 {
        ("E nngwe"@, "Tswana"@)
    } else
    if i == 57 {
        ("Eyinye"@, "Xhosa"@)
    } else
    if i == 58 {
        ("Enye eyengeziwe"@, "Zulu"@)
    } else
    if i == 59 {
        ("Isa pa"@, "Tagalog/Filipino"@)
    } else
    if i == 60 {
        ("Satu lagi"@, "Indonesian/Malay"@)
    } else
    if i == 61 {
        ("Isa pa"@, "Cebuano"@)
    } else
    if i == 62 {
        ("Tasi tano"@, "Chamorro"@)
    } else
    if i == 63 {
        ("Kotahi anō"@, "Maori"@)
    } else
    if i == 64 {
        ("E tasi atu"@, "Samoan"@)
    } else
    if i == 65 {
        ("E taha tale"@, "Fijian"@)
    } else
    if i == 66 {
        ("Hoʻokahi hou"@, "Hawaiian"@)
    } else
    if i == 67 {
        ("Še jeden"@, "Slovenian"@)
    } else
    if i == 68 {
        ("ಇನ್ನೊಂದು"@, "Kannada"@)
    } else
    if i == 69 {
        ("மேலும் ஒன்று"@, "Tamil"@)
    } else
    if i == 70 {
        ("Unu pli"@, "Esperanto"@)
    } else
    if i == 71 {
        ("Unu pluse"@, "Interlingua"@)
    } else
    if i == 72 {
        ("មួយទៀត"@, "Khmer"@)
    } else
    if i == 73 {
        ("ອີກອັນນຶ່ງ"@, "Lao"@)
    } else
    if i == 74 {
        ("Thêm một"@, "Vietnamese"@)
    } else
    if i == 75 {
        ("อีกหนึ่ง"@, "Thai"@)
    } else
    if i == 76 {
        ("ちゅーてぃー"@, "Okinawan"@)
    } else
    if i == 77 {
        ("한 개 더"@, "Korean"@)
    } else
    if i == 78 {
        ("Дахиад нэг"@, "Mongolian"@)
    } else
    if i == 79 {
        ("Üks veel"@, "Estonian"@)
    } else
    if i == 80 {
        ("Vēl viens"@, "Latvian"@)
    } else
    if i == 81 {
        ("Un arall"@, "Welsh"@)
    } else
    if i == 82 {
        ("Aon eile"@, "Irish"@)
    } else
    if i == 83 {
        ("Aon eile"@, "Scottish Gaelic"@)
    } else
    if i == 84 {
        ("Unnane"@, "Manx"@)
    } else
    if i == 85 {
        ("Dar vienas"@, "Lithuanian"@)
    } else
    if i == 86 {
        ("Edhe një"@, "Albanian"@)
    } else
    if i == 87 {
        ("ԵՒս մեկ"@, "Armenian"@)
    } else
    if i == 88 {
        ("კიდევ ერთი"@, "Georgian"@)
    } else
    if i == 89 {
        ("Bat gehiago"@, "Basque"@)
    } else
    if i == 90 {
        ("Wieħed ieħor"@, "Maltese"@)
    } else
    if i == 91 {
        ("Nog een"@, "Afrikaans"@)
    } else
    if i == 92 {
        ("Wan moa"@, "Jamaican Patois"@)
    } else
    if i == 93 {
        ("Un altro"@, "Corsican"@)
    } else
    if i == 94 {
        ("Unu más"@, "Galician"@)
    } else
    if i == 95 {
        ("Bat gehiago"@, "Basque"@)
    } else
    if i == 96 {
        ("Un autre"@, "French Canadian"@)
    } else
    if i == 97 {
        ("Unu di più"@, "Sicilian"@)
    } else
    {
        ("One more"@, "English"@)
    }
}

/// The translation at the given index of the fixed table.
pub fn one_more_translation(i: usize) -> (r: (&'static str, &'static str))
    requires
        i < ONE_MORE_COUNT,
    ensures
        (r.0@, r.1@) == one_more_entry(i as int),
{
    match i {
        0 => ("One more", "English"),
        1 => ("Uno más", "Spanish"),
        2 => ("Un de plus", "French"),
        3 => ("Noch einer", "German"),
        4 => ("Еще один", "Russian"),
        5 => ("Ancora uno", "Italian"),
        6 => ("Mais um", "Portuguese"),
        7 => ("Jeszcze jeden", "Polish"),
        8 => ("Încă unul", "Romanian"),
        9 => ("Ще один", "Ukrainian"),
        10 => ("Ještě jeden", "Czech"),
        11 => ("Ešte jeden", "Slovak"),
        12 => ("Još jedan", "Croatian/Serbian/Bosnian"),
        13 => ("Още един", "Bulgarian"),
        14 => ("Ένας ακόμα", "Greek"),
        15 => ("Een meer", "Dutch"),
        16 => ("En till", "Swedish"),
        17 => ("En til", "Norwegian"),
        18 => ("Én mere", "Danish"),
        19 => ("Yksi lisää", "Finnish"),
        20 => ("Még egy", "Hungarian"),
        21 => ("Vienas daugiau", "Lithuanian"),
        22 => ("Vēl viens", "Latvian"),
        23 => ("Üks veel", "Estonian"),
        24 => ("Eitt til", "Icelandic"),
        25 => ("یکی دیگر", "Persian"),
        26 => ("एक और", "Hindi"),
        27 => ("আরও একটি", "Bengali"),
        28 => ("ایک اور", "Urdu"),
        29 => ("ਇੱਕ ਹੋਰ", "Punjabi"),
        30 => ("એક વધુ", "Gujarati"),
        31 => ("ಇನ್ನೂ ಒಂದು", "Kannada"),
        32 => ("ఇంకా ఒకటి", "Telugu"),
        33 => ("இன்னும் ஒன்று", "Tamil"),
        34 => ("ഒന്നുകൂടി", "Malayalam"),
        35 => ("තවත් එකක්", "Sinhala"),
        36 => ("再来一个", "Chinese Simplified"),
        37 => ("再來一個", "Chinese Traditional"),
        38 => ("もう一つ", "Japanese"),
        39 => ("하나 더", "Korean"),
        40 => ("နောက်တစ်ခု", "Burmese"),
        41 => ("ཡང་གཅིག", "Tibetan"),
        42 => ("עוד אחד", "Hebrew"),
        43 => ("واحد آخر", "Arabic"),
        44 => ("ሌላ አንድ", "Amharic"),
        45 => ("Bir tane daha", "Turkish"),
        46 => ("Тағы бір", "Kazakh"),
        47 => ("Yana bitta", "Uzbek"),
        48 => ("Дагы бир", "Kyrgyz"),
        49 => ("Yana bir", "Azerbaijani"),
        50 => ("Тагы бер", "Tatar"),
        51 => ("Ọkan sii", "Yoruba"),
        52 => ("Otu ọzọ", "Igbo"),
        53 => ("Chimodzi china", "Chichewa"),
        54 => ("Bumwe", "Shona"),
        55 => ("Moja zaidi", "Swahili"),
        56 => ("E nngwe", "Tswana"),
        57 => ("Eyinye", "Xhosa"),
        58 => ("Enye eyengeziwe", "Zulu"),
        59 => ("Isa pa", "Tagalog/Filipino"),
        60 => ("Satu lagi", "Indonesian/Malay"),
        61 => ("Isa pa", "Cebuano"),
        62 => ("Tasi tano", "Chamorro"),
        63 => ("Kotahi anō", "Maori"),
        64 => ("E tasi atu", "Samoan"),
        65 => ("E taha tale", "Fijian"),
        66 => ("Hoʻokahi hou", "Hawaiian"),
        67 => ("Še jeden", "Slovenian"),
        68 => ("ಇನ್ನೊಂದು", "Kannada"),
        69 => ("மேலும் ஒன்று", "Tamil"),
        70 => ("Unu pli", "Esperanto"),
        71 => ("Unu pluse", "Interlingua"),
        72 => ("មួយទៀត", "Khmer"),
        73 => ("ອີກອັນນຶ່ງ", "Lao"),
        74 => ("Thêm một", "Vietnamese"),
        75 => ("อีกหนึ่ง", "Thai"),
        76 => ("ちゅーてぃー", "Okinawan"),
        77 => ("한 개 더", "Korean"),
        78 => ("Дахиад нэг", "Mongolian"),
        79 => ("Üks veel", "Estonian"),
        80 => ("Vēl viens", "Latvian"),
        81 => ("Un arall", "Welsh"),
        82 => ("Aon eile", "Irish"),
        83 => ("Aon eile", "Scottish Gaelic"),
        84 => ("Unnane", "Manx"),
        85 => ("Dar vienas", "Lithuanian"),
        86 => ("Edhe një", "Albanian"),
        87 => ("ԵՒս մեկ", "Armenian"),
        88 => ("კიდევ ერთი", "Georgian"),
        89 => ("Bat gehiago", "Basque"),
        90 => ("Wieħed ieħor", "Maltese"),
        91 => ("Nog een", "Afrikaans"),
        92 => ("Wan moa", "Jamaican Patois"),
        93 => ("Un altro", "Corsican"),
        94 => ("Unu más", "Galician"),
        95 => ("Bat gehiago", "Basque"),
        96 => ("Un autre", "French Canadian"),
        97 => ("Unu di più", "Sicilian"),
        _ => ("One more", "English"),
    }
}

/// Relies on rand::Rng::gen_range: a random index below the bound; the
/// range is non-empty, so the call cannot panic, and whatever comes back is
/// below the bound.
#[verifier::external_body]
fn random_index(n: usize) -> (r: usize)
    requires
        n > 0,
    ensures
        r < n,
{
    rand::thread_rng().gen_range(0..n)
}

/// Returns a random translation of "One more" from the fixed table,
/// paired with the name of its language.
pub fn get_random_one_more() -> (r: (&'static str, &'static str))
    ensures
        exists|i: int|
            0 <= i < ONE_MORE_COUNT && (r.0@, r.1@) == #[trigger] one_more_entry(i),
{
    let i = random_index(ONE_MORE_COUNT);
    let r = one_more_translation(i);
    proof {
        assert((r.0@, r.1@) == one_more_entry(i as int));
    }
    r
}

} // verus!
