//! The upper halves of the supported code pages, each with the hash
//! parameter it is laid out with. Character `i` of a table's text is the
//! character of byte `0x80 + i`; `?` marks a byte without one.

use vstd::prelude::*;
use vstd::string::StrSliceExecFns;

verus! {

/// The code pages this crate has tables for.
pub const KNOWN_CODE_PAGES: [u16; 19] = [
    437, 720, 737, 850, 852, 855, 857, 858, 860, 861, 862, 863, 864, 865, 866, 869, 874, 912, 915,
];

/// Code page 437.
pub const CP437: &'static str = "\
    ÇüéâäàåçêëèïîìÄÅ\
    ÉæÆôöòûùÿÖÜ¢£¥₧ƒ\
    áíóúñÑªº¿⌐¬½¼¡«»\
    ░▒▓│┤╡╢╖╕╣║╗╝╜╛┐\
    └┴┬├─┼╞╟╚╔╩╦╠═╬╧\
    ╨╤╥╙╘╒╓╫╪┘┌█▄▌▐▀\
    αßΓπΣσµτΦΘΩδ∞φε∩\
    ≡±≥≤⌠⌡÷≈°∙·√ⁿ²■\u{a0}";

/// Code page 720.
pub const CP720: &'static str = "\
    ??éâ?à?çêëèïî???\
    ?\u{651}\u{652}ô¤ـûùءآأؤ£إئا\
    بةتثجحخدذرزسشص«»\
    ░▒▓│┤╡╢╖╕╣║╗╝╜╛┐\
    └┴┬├─┼╞╟╚╔╩╦╠═╬╧\
    ╨╤╥╙╘╒╓╫╪┘┌█▄▌▐▀\
    ضطظعغفµقكلمنهوىي\
    ≡\u{64b}\u{64c}\u{64d}\u{64e}\u{64f}\u{650}≈°∙·√ⁿ²■\u{a0}";

/// Code page 737.
pub const CP737: &'static str = "\
    ΑΒΓΔΕΖΗΘΙΚΛΜΝΞΟΠ\
    ΡΣΤΥΦΧΨΩαβγδεζηθ\
    ικλμνξοπρσςτυφχψ\
    ░▒▓│┤╡╢╖╕╣║╗╝╜╛┐\
    └┴┬├─┼╞╟╚╔╩╦╠═╬╧\
    ╨╤╥╙╘╒╓╫╪┘┌█▄▌▐▀\
    ωάέήϊίόύϋώΆΈΉΊΌΎ\
    Ώ±≥≤ΪΫ÷≈°∙·√ⁿ²■\u{a0}";

/// Code page 850.
pub const CP850: &'static str = "\
    ÇüéâäàåçêëèïîìÄÅ\
    ÉæÆôöòûùÿÖÜø£Ø×ƒ\
    áíóúñÑªº¿®¬½¼¡«»\
    ░▒▓│┤ÁÂÀ©╣║╗╝¢¥┐\
    └┴┬├─┼ãÃ╚╔╩╦╠═╬¤\
    ðÐÊËÈıÍÎÏ┘┌█▄¦Ì▀\
    ÓßÔÒõÕµþÞÚÛÙýÝ¯´\
    \u{ad}±‗¾¶§÷¸°¨·¹³²■\u{a0}";

/// Code page 852.
pub const CP852: &'static str = "\
    ÇüéâäůćçłëŐőîŹÄĆ\
    ÉĹĺôöĽľŚśÖÜŤťŁ×č\
    áíóúĄąŽžĘę¬źČş«»\
    ░▒▓│┤ÁÂĚŞ╣║╗╝Żż┐\
    └┴┬├─┼Ăă╚╔╩╦╠═╬¤\
    đĐĎËďŇÍÎě┘┌█▄ŢŮ▀\
    ÓßÔŃńňŠšŔÚŕŰýÝţ´\
    \u{ad}˝˛ˇ˘§÷¸°¨˙űŘř■\u{a0}";

/// Code page 855.
pub const CP855: &'static str = "\
    ђЂѓЃёЁєЄѕЅіІїЇјЈ\
    љЉњЊћЋќЌўЎџЏюЮъЪ\
    аАбБцЦдДеЕфФгГ«»\
    ░▒▓│┤хХиИ╣║╗╝йЙ┐\
    └┴┬├─┼кК╚╔╩╦╠═╬¤\
    лЛмМнНоОп┘┌█▄Пя▀\
    ЯрРсСтТуУжЖвВьЬ№\
    \u{ad}ыЫзЗшШэЭщЩчЧ§■\u{a0}";

/// Code page 857.
pub const CP857: &'static str = "\
    ÇüéâäàåçêëèïîıÄÅ\
    ÉæÆôöòûùİÖÜø£ØŞş\
    áíóúñÑĞğ¿®¬½¼¡«»\
    ░▒▓│┤ÁÂÀ©╣║╗╝¢¥┐\
    └┴┬├─┼ãÃ╚╔╩╦╠═╬¤\
    ºªÊËÈ?ÍÎÏ┘┌█▄¦Ì▀\
    ÓßÔÒõÕµ?×ÚÛÙìÿ¯´\
    \u{ad}±?¾¶§÷¸°¨·¹³²■\u{a0}";

/// Code page 858.
pub const CP858: &'static str = "\
    ÇüéâäàåçêëèïîìÄÅ\
    ÉæÆôöòûùÿÖÜø£Ø×ƒ\
    áíóúñÑªº¿®¬½¼¡«»\
    ░▒▓│┤ÁÂÀ©╣║╗╝¢¥┐\
    └┴┬├─┼ãÃ╚╔╩╦╠═╬¤\
    ðÐÊËÈ€ÍÎÏ┘┌█▄¦Ì▀\
    ÓßÔÒõÕµþÞÚÛÙýÝ¯´\
    \u{ad}±‗¾¶§÷¸°¨·¹³²■\u{a0}";

/// Code page 860.
pub const CP860: &'static str = "\
    ÇüéâãàÁçêÊèÍÔìÃÂ\
    ÉÀÈôõòÚùÌÕÜ¢£Ù₧Ó\
    áíóúñÑªº¿Ò¬½¼¡«»\
    ░▒▓│┤╡╢╖╕╣║╗╝╜╛┐\
    └┴┬├─┼╞╟╚╔╩╦╠═╬╧\
    ╨╤╥╙╘╒╓╫╪┘┌█▄▌▐▀\
    αßΓπΣσµτΦΘΩδ∞φε∩\
    ≡±≥≤⌠⌡÷≈°∙·√ⁿ²■\u{a0}";

/// Code page 861.
pub const CP861: &'static str = "\
    ÇüéâäàåçêëèÐðÞÄÅ\
    ÉæÆôöþûÝýÖÜø£Ø₧ƒ\
    áíóúÁÍÓÚ¿⌐¬½¼¡«»\
    ░▒▓│┤╡╢╖╕╣║╗╝╜╛┐\
    └┴┬├─┼╞╟╚╔╩╦╠═╬╧\
    ╨╤╥╙╘╒╓╫╪┘┌█▄▌▐▀\
    αßΓπΣσµτΦΘΩδ∞φε∩\
    ≡±≥≤⌠⌡÷≈°∙·√ⁿ²■\u{a0}";

/// Code page 862.
pub const CP862: &'static str = "\
    אבגדהוזחטיךכלםמן\
    נסעףפץצקרשת¢£¥₧ƒ\
    áíóúñÑªº¿⌐¬½¼¡«»\
    ░▒▓│┤╡╢╖╕╣║╗╝╜╛┐\
    └┴┬├─┼╞╟╚╔╩╦╠═╬╧\
    ╨╤╥╙╘╒╓╫╪┘┌█▄▌▐▀\
    αßΓπΣσµτΦΘΩδ∞φε∩\
    ≡±≥≤⌠⌡÷≈°∙·√ⁿ²■\u{a0}";

/// Code page 863.
pub const CP863: &'static str = "\
    ÇüéâÂà¶çêëèïî‗À§\
    ÉÈÊôËÏûù¤ÔÜ¢£ÙÛƒ\
    ¦´óú¨¸³¯Î⌐¬½¼¾«»\
    ░▒▓│┤╡╢╖╕╣║╗╝╜╛┐\
    └┴┬├─┼╞╟╚╔╩╦╠═╬╧\
    ╨╤╥╙╘╒╓╫╪┘┌█▄▌▐▀\
    αßΓπΣσµτΦΘΩδ∞φε∩\
    ≡±≥≤⌠⌡÷≈°∙·√ⁿ²■\u{a0}";

/// Code page 864.
pub const CP864: &'static str = "\
    °·∙√▒─│┼┤┬├┴┐┌└┘\
    β∞φ±½¼≈«»ﻷﻸ??ﻻﻼ?\
    \u{a0}\u{ad}ﺂ£¤ﺄ??ﺎﺏﺕﺙ،ﺝﺡﺥ\
    ٠١٢٣٤٥٦٧٨٩ﻑ؛ﺱﺵﺹ؟\
    ¢ﺀﺁﺃﺅﻊﺋﺍﺑﺓﺗﺛﺟﺣﺧﺩ\
    ﺫﺭﺯﺳﺷﺻﺿﻁﻅﻋﻏ¦¬÷×ﻉ\
    ـﻓﻗﻛﻟﻣﻧﻫﻭﻯﻳﺽﻌﻎﻍﻡ\
    ﹽ\u{651}ﻥﻩﻬﻰﻲﻐﻕﻵﻶﻝﻙﻱ■?";

/// Code page 865.
pub const CP865: &'static str = "\
    ÇüéâäàåçêëèïîìÄÅ\
    ÉæÆôöòûùÿÖÜø£Ø₧ƒ\
    áíóúñÑªº¿⌐¬½¼¡«¤\
    ░▒▓│┤╡╢╖╕╣║╗╝╜╛┐\
    └┴┬├─┼╞╟╚╔╩╦╠═╬╧\
    ╨╤╥╙╘╒╓╫╪┘┌█▄▌▐▀\
    αßΓπΣσµτΦΘΩδ∞φε∩\
    ≡±≥≤⌠⌡÷≈°∙·√ⁿ²■\u{a0}";

/// Code page 866.
pub const CP866: &'static str = "\
    АБВГДЕЖЗИЙКЛМНОП\
    РСТУФХЦЧШЩЪЫЬЭЮЯ\
    абвгдежзийклмноп\
    ░▒▓│┤╡╢╖╕╣║╗╝╜╛┐\
    └┴┬├─┼╞╟╚╔╩╦╠═╬╧\
    ╨╤╥╙╘╒╓╫╪┘┌█▄▌▐▀\
    рстуфхцчшщъыьэюя\
    ЁёЄєЇїЎў°∙·√№¤■\u{a0}";

/// Code page 869.
pub const CP869: &'static str = "\
    ??????Ά?·¬¦‘’Έ―Ή\
    ΊΪΌ??ΎΫ©Ώ²³ά£έήί\
    ϊΐόύΑΒΓΔΕΖΗ½ΘΙ«»\
    ░▒▓│┤ΚΛΜΝ╣║╗╝ΞΟ┐\
    └┴┬├─┼ΠΡ╚╔╩╦╠═╬Σ\
    ΤΥΦΧΨΩαβγ┘┌█▄δε▀\
    ζηθικλμνξοπρσςτ΄\
    \u{ad}±υφχ§ψ΅°¨ωϋΰώ■\u{a0}";

/// Code page 874.
pub const CP874: &'static str = "\
    €????…??????????\
    ?‘’“”•–—????????\
    \u{a0}กขฃคฅฆงจฉชซฌญฎฏ\
    ฐฑฒณดตถทธนบปผฝพฟ\
    ภมยรฤลฦวศษสหฬอฮฯ\
    ะ\u{e31}าำ\u{e34}\u{e35}\u{e36}\u{e37}\u{e38}\u{e39}\u{e3a}????฿\
    เแโใไๅๆ\u{e47}\u{e48}\u{e49}\u{e4a}\u{e4b}\u{e4c}\u{e4d}\u{e4e}๏\
    ๐๑๒๓๔๕๖๗๘๙๚๛????";

/// Code page 912.
pub const CP912: &'static str = "\
    \u{80}\u{81}\u{82}\u{83}\u{84}\u{85}\u{86}\u{87}\u{88}\u{89}\u{8a}\u{8b}\u{8c}\u{8d}\u{8e}\u{8f}\
    \u{90}\u{91}\u{92}\u{93}\u{94}\u{95}\u{96}\u{97}\u{98}\u{99}\u{9a}\u{9b}\u{9c}\u{9d}\u{9e}\u{9f}\
    \u{a0}Ą˘Ł¤ĽŚ§¨ŠŞŤŹ\u{ad}ŽŻ\
    °ą˛ł´ľśˇ¸šşťź˝žż\
    ŔÁÂĂÄĹĆÇČÉĘËĚÍÎĎ\
    ĐŃŇÓÔŐÖ×ŘŮÚŰÜÝŢß\
    ŕáâăäĺćçčéęëěíîď\
    đńňóôőö÷řůúűüýţ˙";

/// Code page 915.
pub const CP915: &'static str = "\
    \u{80}\u{81}\u{82}\u{83}\u{84}\u{85}\u{86}\u{87}\u{88}\u{89}\u{8a}\u{8b}\u{8c}\u{8d}\u{8e}\u{8f}\
    \u{90}\u{91}\u{92}\u{93}\u{94}\u{95}\u{96}\u{97}\u{98}\u{99}\u{9a}\u{9b}\u{9c}\u{9d}\u{9e}\u{9f}\
    \u{a0}ЁЂЃЄЅІЇЈЉЊЋЌ\u{ad}ЎЏ\
    АБВГДЕЖЗИЙКЛМНОП\
    РСТУФХЦЧШЩЪЫЬЭЮЯ\
    абвгдежзийклмноп\
    рстуфхцчшщъыьэюя\
    №ёђѓєѕіїјљњћќ§ўџ";

/// The text of the table and the hash parameter of a known code page.
pub open spec fn spec_base_table_and_hash_param(code_page: u16) -> Option<(Seq<char>, u16)> {
    match code_page {
        437 => Some((CP437@, 0x9f8d)),
        720 => Some((CP720@, 0x8eac)),
        737 => Some((CP737@, 0x9af8)),
        850 => Some((CP850@, 0x80f1)),
        852 => Some((CP852@, 0xf5f4)),
        855 => Some((CP855@, 0x808f)),
        857 => Some((CP857@, 0x80ee)),
        858 => Some((CP858@, 0x80f1)),
        860 => Some((CP860@, 0x9fcd)),
        861 => Some((CP861@, 0x83ad)),
        862 => Some((CP862@, 0xbb95)),
        863 => Some((CP863@, 0xeac8)),
        864 => Some((CP864@, 0x80a2)),
        865 => Some((CP865@, 0x9f8d)),
        866 => Some((CP866@, 0x8398)),
        869 => Some((CP869@, 0x8b8f)),
        874 => Some((CP874@, 0x8080)),
        912 => Some((CP912@, 0x8086)),
        915 => Some((CP915@, 0x8080)),
        _ => None,
    }
}

/// The characters of a table's text, where it holds 128 of them.
pub fn table_from_text(text: &str) -> (r: Option<[char; 128]>)
    ensures
        r is Some <==> text@.len() == 128,
        r matches Some(table) ==> table@ == text@,
{
    if text.unicode_len() != 128 {
        return None;
    }
    let mut table = ['?'; 128];
    let mut i: usize = 0;
    while i < 128
        invariant
            i <= 128,
            text@.len() == 128,
            forall|j: int| 0 <= j < i ==> table@[j] == text@[j],
        decreases 128 - i,
    {
        table[i] = text.get_char(i);
        i += 1;
    }
    assert(table@ =~= text@);
    Some(table)
}

/// The table and hash parameter of a known code page; `None` only where the
/// table's text does not hold 128 characters.
pub fn base_table_and_hash_param(code_page: u16) -> (r: Option<([char; 128], u16)>)
    requires
        KNOWN_CODE_PAGES@.contains(code_page),
    ensures
        spec_base_table_and_hash_param(code_page) is Some,
        r is Some <==> (spec_base_table_and_hash_param(code_page) matches Some((text, _))
            && text.len() == 128),
        r matches Some((table, param)) ==> spec_base_table_and_hash_param(code_page) == Some(
            (table@, param),
        ),
{
    let (text, param): (&str, u16) = match code_page {
        437 => (CP437, 0x9f8d),
        720 => (CP720, 0x8eac),
        737 => (CP737, 0x9af8),
        850 => (CP850, 0x80f1),
        852 => (CP852, 0xf5f4),
        855 => (CP855, 0x808f),
        857 => (CP857, 0x80ee),
        858 => (CP858, 0x80f1),
        860 => (CP860, 0x9fcd),
        861 => (CP861, 0x83ad),
        862 => (CP862, 0xbb95),
        863 => (CP863, 0xeac8),
        864 => (CP864, 0x80a2),
        865 => (CP865, 0x9f8d),
        866 => (CP866, 0x8398),
        869 => (CP869, 0x8b8f),
        874 => (CP874, 0x8080),
        912 => (CP912, 0x8086),
        915 => (CP915, 0x8080),
        _ => {
            proof {
                assert(KNOWN_CODE_PAGES@ =~= seq![
                    437u16, 720, 737, 850, 852, 855, 857, 858, 860, 861, 862, 863, 864, 865,
                    866, 869, 874, 912, 915,
                ]);
                let k = choose|k: int|
                    0 <= k < KNOWN_CODE_PAGES@.len() && KNOWN_CODE_PAGES@[k] == code_page;
                assert(false);
            }
            return None;
        },
    };
    match table_from_text(text) {
        Some(table) => Some((table, param)),
        None => None,
    }
}

} // verus!
