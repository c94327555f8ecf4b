//! The CSS named colours.
use vstd::prelude::*;
use vstd::string::StringSliceAdditionalSpecFns;

use crate::text::{fold_all, lemma_fold_lower, lower_all};
use crate::color::model::Color;

verus! {

/// Number of named colours.
pub const KEYWORD_COUNT: usize = 149;

/// The name of the `i`-th named colour, as bytes; the names are in increasing byte order.
pub open spec fn keyword_name(i: usize) -> Seq<u8> {
    match i {
        0 => seq![97u8, 108u8, 105u8, 99u8, 101u8, 98u8, 108u8, 117u8, 101u8], // aliceblue
        1 => seq![97u8, 110u8, 116u8, 105u8, 113u8, 117u8, 101u8, 119u8, 104u8, 105u8, 116u8, 101u8], // antiquewhite
        2 => seq![97u8, 113u8, 117u8, 97u8], // aqua
        3 => seq![97u8, 113u8, 117u8, 97u8, 109u8, 97u8, 114u8, 105u8, 110u8, 101u8], // aquamarine
        4 => seq![97u8, 122u8, 117u8, 114u8, 101u8], // azure
        5 => seq![98u8, 101u8, 105u8, 103u8, 101u8], // beige
        6 => seq![98u8, 105u8, 115u8, 113u8, 117u8, 101u8], // bisque
        7 => seq![98u8, 108u8, 97u8, 99u8, 107u8], // black
        8 => seq![98u8, 108u8, 97u8, 110u8, 99u8, 104u8, 101u8, 100u8, 97u8, 108u8, 109u8, 111u8, 110u8, 100u8], // blanchedalmond
        9 => seq![98u8, 108u8, 117u8, 101u8], // blue
        10 => seq![98u8, 108u8, 117u8, 101u8, 118u8, 105u8, 111u8, 108u8, 101u8, 116u8], // blueviolet
        11 => seq![98u8, 114u8, 111u8, 119u8, 110u8], // brown
        12 => seq![98u8, 117u8, 114u8, 108u8, 121u8, 119u8, 111u8, 111u8, 100u8], // burlywood
        13 => seq![99u8, 97u8, 100u8, 101u8, 116u8, 98u8, 108u8, 117u8, 101u8], // cadetblue
        14 => seq![99u8, 104u8, 97u8, 114u8, 116u8, 114u8, 101u8, 117u8, 115u8, 101u8], // chartreuse
        15 => seq![99u8, 104u8, 111u8, 99u8, 111u8, 108u8, 97u8, 116u8, 101u8], // chocolate
        16 => seq![99u8, 111u8, 114u8, 97u8, 108u8], // coral
        17 => seq![99u8, 111u8, 114u8, 110u8, 102u8, 108u8, 111u8, 119u8, 101u8, 114u8, 98u8, 108u8, 117u8, 101u8], // cornflowerblue
        18 => seq![99u8, 111u8, 114u8, 110u8, 115u8, 105u8, 108u8, 107u8], // cornsilk
        19 => seq![99u8, 114u8, 105u8, 109u8, 115u8, 111u8, 110u8], // crimson
        20 => seq![99u8, 121u8, 97u8, 110u8], // cyan
        21 => seq![100u8, 97u8, 114u8, 107u8, 98u8, 108u8, 117u8, 101u8], // darkblue
        22 => seq![100u8, 97u8, 114u8, 107u8, 99u8, 121u8, 97u8, 110u8], // darkcyan
        23 => seq![100u8, 97u8, 114u8, 107u8, 103u8, 111u8, 108u8, 100u8, 101u8, 110u8, 114u8, 111u8, 100u8], // darkgoldenrod
        24 => seq![100u8, 97u8, 114u8, 107u8, 103u8, 114u8, 97u8, 121u8], // darkgray
        25 => seq![100u8, 97u8, 114u8, 107u8, 103u8, 114u8, 101u8, 101u8, 110u8], // darkgreen
        26 => seq![100u8, 97u8, 114u8, 107u8, 103u8, 114u8, 101u8, 121u8], // darkgrey
        27 => seq![100u8, 97u8, 114u8, 107u8, 107u8, 104u8, 97u8, 107u8, 105u8], // darkkhaki
        28 => seq![100u8, 97u8, 114u8, 107u8, 109u8, 97u8, 103u8, 101u8, 110u8, 116u8, 97u8], // darkmagenta
        29 => seq![100u8, 97u8, 114u8, 107u8, 111u8, 108u8, 105u8, 118u8, 101u8, 103u8, 114u8, 101u8, 101u8, 110u8], // darkolivegreen
        30 => seq![100u8, 97u8, 114u8, 107u8, 111u8, 114u8, 97u8, 110u8, 103u8, 101u8], // darkorange
        31 => seq![100u8, 97u8, 114u8, 107u8, 111u8, 114u8, 99u8, 104u8, 105u8, 100u8], // darkorchid
        32 => seq![100u8, 97u8, 114u8, 107u8, 114u8, 101u8, 100u8], // darkred
        33 => seq![100u8, 97u8, 114u8, 107u8, 115u8, 97u8, 108u8, 109u8, 111u8, 110u8], // darksalmon
        34 => seq![100u8, 97u8, 114u8, 107u8, 115u8, 101u8, 97u8, 103u8, 114u8, 101u8, 101u8, 110u8], // darkseagreen
        35 => seq![100u8, 97u8, 114u8, 107u8, 115u8, 108u8, 97u8, 116u8, 101u8, 98u8, 108u8, 117u8, 101u8], // darkslateblue
        36 => seq![100u8, 97u8, 114u8, 107u8, 115u8, 108u8, 97u8, 116u8, 101u8, 103u8, 114u8, 97u8, 121u8], // darkslategray
        37 => seq![100u8, 97u8, 114u8, 107u8, 115u8, 108u8, 97u8, 116u8, 101u8, 103u8, 114u8, 101u8, 121u8], // darkslategrey
        38 => seq![100u8, 97u8, 114u8, 107u8, 116u8, 117u8, 114u8, 113u8, 117u8, 111u8, 105u8, 115u8, 101u8], // darkturquoise
        39 => seq![100u8, 97u8, 114u8, 107u8, 118u8, 105u8, 111u8, 108u8, 101u8, 116u8], // darkviolet
        40 => seq![100u8, 101u8, 101u8, 112u8, 112u8, 105u8, 110u8, 107u8], // deeppink
        41 => seq![100u8, 101u8, 101u8, 112u8, 115u8, 107u8, 121u8, 98u8, 108u8, 117u8, 101u8], // deepskyblue
        42 => seq![100u8, 105u8, 109u8, 103u8, 114u8, 97u8, 121u8], // dimgray
        43 => seq![100u8, 105u8, 109u8, 103u8, 114u8, 101u8, 121u8], // dimgrey
        44 => seq![100u8, 111u8, 100u8, 103u8, 101u8, 114u8, 98u8, 108u8, 117u8, 101u8], // dodgerblue
        45 => seq![102u8, 105u8, 114u8, 101u8, 98u8, 114u8, 105u8, 99u8, 107u8], // firebrick
        46 => seq![102u8, 108u8, 111u8, 114u8, 97u8, 108u8, 119u8, 104u8, 105u8, 116u8, 101u8], // floralwhite
        47 => seq![102u8, 111u8, 114u8, 101u8, 115u8, 116u8, 103u8, 114u8, 101u8, 101u8, 110u8], // forestgreen
        48 => seq![102u8, 117u8, 99u8, 104u8, 115u8, 105u8, 97u8], // fuchsia
        49 => seq![103u8, 97u8, 105u8, 110u8, 115u8, 98u8, 111u8, 114u8, 111u8], // gainsboro
        50 => seq![103u8, 104u8, 111u8, 115u8, 116u8, 119u8, 104u8, 105u8, 116u8, 101u8], // ghostwhite
        51 => seq![103u8, 111u8, 108u8, 100u8], // gold
        52 => seq![103u8, 111u8, 108u8, 100u8, 101u8, 110u8, 114u8, 111u8, 100u8], // goldenrod
        53 => seq![103u8, 114u8, 97u8, 121u8], // gray
        54 => seq![103u8, 114u8, 101u8, 101u8, 110u8], // green
        55 => seq![103u8, 114u8, 101u8, 101u8, 110u8, 121u8, 101u8, 108u8, 108u8, 111u8, 119u8], // greenyellow
        56 => seq![103u8, 114u8, 101u8, 121u8], // grey
        57 => seq![104u8, 111u8, 110u8, 101u8, 121u8, 100u8, 101u8, 119u8], // honeydew
        58 => seq![104u8, 111u8, 116u8, 112u8, 105u8, 110u8, 107u8], // hotpink
        59 => seq![105u8, 110u8, 100u8, 105u8, 97u8, 110u8, 114u8, 101u8, 100u8], // indianred
        60 => seq![105u8, 110u8, 100u8, 105u8, 103u8, 111u8], // indigo
        61 => seq![105u8, 118u8, 111u8, 114u8, 121u8], // ivory
        62 => seq![107u8, 104u8, 97u8, 107u8, 105u8], // khaki
        63 => seq![108u8, 97u8, 118u8, 101u8, 110u8, 100u8, 101u8, 114u8], // lavender
        64 => seq![108u8, 97u8, 118u8, 101u8, 110u8, 100u8, 101u8, 114u8, 98u8, 108u8, 117u8, 115u8, 104u8], // lavenderblush
        65 => seq![108u8, 97u8, 119u8, 110u8, 103u8, 114u8, 101u8, 101u8, 110u8], // lawngreen
        66 => seq![108u8, 101u8, 109u8, 111u8, 110u8, 99u8, 104u8, 105u8, 102u8, 102u8, 111u8, 110u8], // lemonchiffon
        67 => seq![108u8, 105u8, 103u8, 104u8, 116u8, 98u8, 108u8, 117u8, 101u8], // lightblue
        68 => seq![108u8, 105u8, 103u8, 104u8, 116u8, 99u8, 111u8, 114u8, 97u8, 108u8], // lightcoral
        69 => seq![108u8, 105u8, 103u8, 104u8, 116u8, 99u8, 121u8, 97u8, 110u8], // lightcyan
        70 => seq![108u8, 105u8, 103u8, 104u8, 116u8, 103u8, 111u8, 108u8, 100u8, 101u8, 110u8, 114u8, 111u8, 100u8, 121u8, 101u8, 108u8, 108u8, 111u8, 119u8], // lightgoldenrodyellow
        71 => seq![108u8, 105u8, 103u8, 104u8, 116u8, 103u8, 114u8, 97u8, 121u8], // lightgray
        72 => seq![108u8, 105u8, 103u8, 104u8, 116u8, 103u8, 114u8, 101u8, 101u8, 110u8], // lightgreen
        73 => seq![108u8, 105u8, 103u8, 104u8, 116u8, 103u8, 114u8, 101u8, 121u8], // lightgrey
        74 => seq![108u8, 105u8, 103u8, 104u8, 116u8, 112u8, 105u8, 110u8, 107u8], // lightpink
        75 => seq![108u8, 105u8, 103u8, 104u8, 116u8, 115u8, 97u8, 108u8, 109u8, 111u8, 110u8], // lightsalmon
        76 => seq![108u8, 105u8, 103u8, 104u8, 116u8, 115u8, 101u8, 97u8, 103u8, 114u8, 101u8, 101u8, 110u8], // lightseagreen
        77 => seq![108u8, 105u8, 103u8, 104u8, 116u8, 115u8, 107u8, 121u8, 98u8, 108u8, 117u8, 101u8], // lightskyblue
        78 => seq![108u8, 105u8, 103u8, 104u8, 116u8, 115u8, 108u8, 97u8, 116u8, 101u8, 103u8, 114u8, 97u8, 121u8], // lightslategray
        79 => seq![108u8, 105u8, 103u8, 104u8, 116u8, 115u8, 108u8, 97u8, 116u8, 101u8, 103u8, 114u8, 101u8, 121u8], // lightslategrey
        80 => seq![108u8, 105u8, 103u8, 104u8, 116u8, 115u8, 116u8, 101u8, 101u8, 108u8, 98u8, 108u8, 117u8, 101u8], // lightsteelblue
        81 => seq![108u8, 105u8, 103u8, 104u8, 116u8, 121u8, 101u8, 108u8, 108u8, 111u8, 119u8], // lightyellow
        82 => seq![108u8, 105u8, 109u8, 101u8], // lime
        83 => seq![108u8, 105u8, 109u8, 101u8, 103u8, 114u8, 101u8, 101u8, 110u8], // limegreen
        84 => seq![108u8, 105u8, 110u8, 101u8, 110u8], // linen
        85 => seq![109u8, 97u8, 103u8, 101u8, 110u8, 116u8, 97u8], // magenta
        86 => seq![109u8, 97u8, 114u8, 111u8, 111u8, 110u8], // maroon
        87 => seq![109u8, 101u8, 100u8, 105u8, 117u8, 109u8, 97u8, 113u8, 117u8, 97u8, 109u8, 97u8, 114u8, 105u8, 110u8, 101u8], // mediumaquamarine
        88 => seq![109u8, 101u8, 100u8, 105u8, 117u8, 109u8, 98u8, 108u8, 117u8, 101u8], // mediumblue
        89 => seq![109u8, 101u8, 100u8, 105u8, 117u8, 109u8, 111u8, 114u8, 99u8, 104u8, 105u8, 100u8], // mediumorchid
        90 => seq![109u8, 101u8, 100u8, 105u8, 117u8, 109u8, 112u8, 117u8, 114u8, 112u8, 108u8, 101u8], // mediumpurple
        91 => seq![109u8, 101u8, 100u8, 105u8, 117u8, 109u8, 115u8, 101u8, 97u8, 103u8, 114u8, 101u8, 101u8, 110u8], // mediumseagreen
        92 => seq![109u8, 101u8, 100u8, 105u8, 117u8, 109u8, 115u8, 108u8, 97u8, 116u8, 101u8, 98u8, 108u8, 117u8, 101u8], // mediumslateblue
        93 => seq![109u8, 101u8, 100u8, 105u8, 117u8, 109u8, 115u8, 112u8, 114u8, 105u8, 110u8, 103u8, 103u8, 114u8, 101u8, 101u8, 110u8], // mediumspringgreen
        94 => seq![109u8, 101u8, 100u8, 105u8, 117u8, 109u8, 116u8, 117u8, 114u8, 113u8, 117u8, 111u8, 105u8, 115u8, 101u8], // mediumturquoise
        95 => seq![109u8, 101u8, 100u8, 105u8, 117u8, 109u8, 118u8, 105u8, 111u8, 108u8, 101u8, 116u8, 114u8, 101u8, 100u8], // mediumvioletred
        96 => seq![109u8, 105u8, 100u8, 110u8, 105u8, 103u8, 104u8, 116u8, 98u8, 108u8, 117u8, 101u8], // midnightblue
        97 => seq![109u8, 105u8, 110u8, 116u8, 99u8, 114u8, 101u8, 97u8, 109u8], // mintcream
        98 => seq![109u8, 105u8, 115u8, 116u8, 121u8, 114u8, 111u8, 115u8, 101u8], // mistyrose
        99 => seq![109u8, 111u8, 99u8, 99u8, 97u8, 115u8, 105u8, 110u8], // moccasin
        100 => seq![110u8, 97u8, 118u8, 97u8, 106u8, 111u8, 119u8, 104u8, 105u8, 116u8, 101u8], // navajowhite
        101 => seq![110u8, 97u8, 118u8, 121u8], // navy
        102 => seq![111u8, 108u8, 100u8, 108u8, 97u8, 99u8, 101u8], // oldlace
        103 => seq![111u8, 108u8, 105u8, 118u8, 101u8], // olive
        104 => seq![111u8, 108u8, 105u8, 118u8, 101u8, 100u8, 114u8, 97u8, 98u8], // olivedrab
        105 => seq![111u8, 114u8, 97u8, 110u8, 103u8, 101u8], // orange
        106 => seq![111u8, 114u8, 97u8, 110u8, 103u8, 101u8, 114u8, 101u8, 100u8], // orangered
        107 => seq![111u8, 114u8, 99u8, 104u8, 105u8, 100u8], // orchid
        108 => seq![112u8, 97u8, 108u8, 101u8, 103u8, 111u8, 108u8, 100u8, 101u8, 110u8, 114u8, 111u8, 100u8], // palegoldenrod
        109 => seq![112u8, 97u8, 108u8, 101u8, 103u8, 114u8, 101u8, 101u8, 110u8], // palegreen
        110 => seq![112u8, 97u8, 108u8, 101u8, 116u8, 117u8, 114u8, 113u8, 117u8, 111u8, 105u8, 115u8, 101u8], // paleturquoise
        111 => seq![112u8, 97u8, 108u8, 101u8, 118u8, 105u8, 111u8, 108u8, 101u8, 116u8, 114u8, 101u8, 100u8], // palevioletred
        112 => seq![112u8, 97u8, 112u8, 97u8, 121u8, 97u8, 119u8, 104u8, 105u8, 112u8], // papayawhip
        113 => seq![112u8, 101u8, 97u8, 99u8, 104u8, 112u8, 117u8, 102u8, 102u8], // peachpuff
        114 => seq![112u8, 101u8, 114u8, 117u8], // peru
        115 => seq![112u8, 105u8, 110u8, 107u8], // pink
        116 => seq![112u8, 108u8, 117u8, 109u8], // plum
        117 => seq![112u8, 111u8, 119u8, 100u8, 101u8, 114u8, 98u8, 108u8, 117u8, 101u8], // powderblue
        118 => seq![112u8, 117u8, 114u8, 112u8, 108u8, 101u8], // purple
        119 => seq![114u8, 101u8, 98u8, 101u8, 99u8, 99u8, 97u8, 112u8, 117u8, 114u8, 112u8, 108u8, 101u8], // rebeccapurple
        120 => seq![114u8, 101u8, 100u8], // red
        121 => seq![114u8, 111u8, 115u8, 121u8, 98u8, 114u8, 111u8, 119u8, 110u8], // rosybrown
        122 => seq![114u8, 111u8, 121u8, 97u8, 108u8, 98u8, 108u8, 117u8, 101u8], // royalblue
        123 => seq![115u8, 97u8, 100u8, 100u8, 108u8, 101u8, 98u8, 114u8, 111u8, 119u8, 110u8], // saddlebrown
        124 => seq![115u8, 97u8, 108u8, 109u8, 111u8, 110u8], // salmon
        125 => seq![115u8, 97u8, 110u8, 100u8, 121u8, 98u8, 114u8, 111u8, 119u8, 110u8], // sandybrown
        126 => seq![115u8, 101u8, 97u8, 103u8, 114u8, 101u8, 101u8, 110u8], // seagreen
        127 => seq![115u8, 101u8, 97u8, 115u8, 104u8, 101u8, 108u8, 108u8], // seashell
        128 => seq![115u8, 105u8, 101u8, 110u8, 110u8, 97u8], // sienna
        129 => seq![115u8, 105u8, 108u8, 118u8, 101u8, 114u8], // silver
        130 => seq![115u8, 107u8, 121u8, 98u8, 108u8, 117u8, 101u8], // skyblue
        131 => seq![115u8, 108u8, 97u8, 116u8, 101u8, 98u8, 108u8, 117u8, 101u8], // slateblue
        132 => seq![115u8, 108u8, 97u8, 116u8, 101u8, 103u8, 114u8, 97u8, 121u8], // slategray
        133 => seq![115u8, 108u8, 97u8, 116u8, 101u8, 103u8, 114u8, 101u8, 121u8], // slategrey
        134 => seq![115u8, 110u8, 111u8, 119u8], // snow
        135 => seq![115u8, 112u8, 114u8, 105u8, 110u8, 103u8, 103u8, 114u8, 101u8, 101u8, 110u8], // springgreen
        136 => seq![115u8, 116u8, 101u8, 101u8, 108u8, 98u8, 108u8, 117u8, 101u8], // steelblue
        137 => seq![116u8, 97u8, 110u8], // tan
        138 => seq![116u8, 101u8, 97u8, 108u8], // teal
        139 => seq![116u8, 104u8, 105u8, 115u8, 116u8, 108u8, 101u8], // thistle
        140 => seq![116u8, 111u8, 109u8, 97u8, 116u8, 111u8], // tomato
        141 => seq![116u8, 114u8, 97u8, 110u8, 115u8, 112u8, 97u8, 114u8, 101u8, 110u8, 116u8], // transparent
        142 => seq![116u8, 117u8, 114u8, 113u8, 117u8, 111u8, 105u8, 115u8, 101u8], // turquoise
        143 => seq![118u8, 105u8, 111u8, 108u8, 101u8, 116u8], // violet
        144 => seq![119u8, 104u8, 101u8, 97u8, 116u8], // wheat
        145 => seq![119u8, 104u8, 105u8, 116u8, 101u8], // white
        146 => seq![119u8, 104u8, 105u8, 116u8, 101u8, 115u8, 109u8, 111u8, 107u8, 101u8], // whitesmoke
        147 => seq![121u8, 101u8, 108u8, 108u8, 111u8, 119u8], // yellow
        148 => seq![121u8, 101u8, 108u8, 108u8, 111u8, 119u8, 103u8, 114u8, 101u8, 101u8, 110u8], // yellowgreen
        _ => seq![],
    }
}

/// The colour of the `i`-th named colour.
pub open spec fn keyword_color(i: usize) -> Color {
    match i {
        0 => Color { r: 240, g: 248, b: 255, a: 255 },
        1 => Color { r: 250, g: 235, b: 215, a: 255 },
        2 => Color { r: 0, g: 255, b: 255, a: 255 },
        3 => Color { r: 127, g: 255, b: 212, a: 255 },
        4 => Color { r: 240, g: 255, b: 255, a: 255 },
        5 => Color { r: 245, g: 245, b: 220, a: 255 },
        6 => Color { r: 255, g: 228, b: 196, a: 255 },
        7 => Color { r: 0, g: 0, b: 0, a: 255 },
        8 => Color { r: 255, g: 235, b: 205, a: 255 },
        9 => Color { r: 0, g: 0, b: 255, a: 255 },
        10 => Color { r: 138, g: 43, b: 226, a: 255 },
        11 => Color { r: 165, g: 42, b: 42, a: 255 },
        12 => Color { r: 222, g: 184, b: 135, a: 255 },
        13 => Color { r: 95, g: 158, b: 160, a: 255 },
        14 => Color { r: 127, g: 255, b: 0, a: 255 },
        15 => Color { r: 210, g: 105, b: 30, a: 255 },
        16 => Color { r: 255, g: 127, b: 80, a: 255 },
        17 => Color { r: 100, g: 149, b: 237, a: 255 },
        18 => Color { r: 255, g: 248, b: 220, a: 255 },
        19 => Color { r: 220, g: 20, b: 60, a: 255 },
        20 => Color { r: 0, g: 255, b: 255, a: 255 },
        21 => Color { r: 0, g: 0, b: 139, a: 255 },
        22 => Color { r: 0, g: 139, b: 139, a: 255 },
        23 => Color { r: 184, g: 134, b: 11, a: 255 },
        24 => Color { r: 169, g: 169, b: 169, a: 255 },
        25 => Color { r: 0, g: 100, b: 0, a: 255 },
        26 => Color { r: 169, g: 169, b: 169, a: 255 },
        27 => Color { r: 189, g: 183, b: 107, a: 255 },
        28 => Color { r: 139, g: 0, b: 139, a: 255 },
        29 => Color { r: 85, g: 107, b: 47, a: 255 },
        30 => Color { r: 255, g: 140, b: 0, a: 255 },
        31 => Color { r: 153, g: 50, b: 204, a: 255 },
        32 => Color { r: 139, g: 0, b: 0, a: 255 },
        33 => Color { r: 233, g: 150, b: 122, a: 255 },
        34 => Color { r: 143, g: 188, b: 143, a: 255 },
        35 => Color { r: 72, g: 61, b: 139, a: 255 },
        36 => Color { r: 47, g: 79, b: 79, a: 255 },
        37 => Color { r: 47, g: 79, b: 79, a: 255 },
        38 => Color { r: 0, g: 206, b: 209, a: 255 },
        39 => Color { r: 148, g: 0, b: 211, a: 255 },
        40 => Color { r: 255, g: 20, b: 147, a: 255 },
        41 => Color { r: 0, g: 191, b: 255, a: 255 },
        42 => Color { r: 105, g: 105, b: 105, a: 255 },
        43 => Color { r: 105, g: 105, b: 105, a: 255 },
        44 => Color { r: 30, g: 144, b: 255, a: 255 },
        45 => Color { r: 178, g: 34, b: 34, a: 255 },
        46 => Color { r: 255, g: 250, b: 240, a: 255 },
        47 => Color { r: 34, g: 139, b: 34, a: 255 },
        48 => Color { r: 255, g: 0, b: 255, a: 255 },
        49 => Color { r: 220, g: 220, b: 220, a: 255 },
        50 => Color { r: 248, g: 248, b: 255, a: 255 },
        51 => Color { r: 255, g: 215, b: 0, a: 255 },
        52 => Color { r: 218, g: 165, b: 32, a: 255 },
        53 => Color { r: 128, g: 128, b: 128, a: 255 },
        54 => Color { r: 0, g: 128, b: 0, a: 255 },
        55 => Color { r: 173, g: 255, b: 47, a: 255 },
        56 => Color { r: 128, g: 128, b: 128, a: 255 },
        57 => Color { r: 240, g: 255, b: 240, a: 255 },
        58 => Color { r: 255, g: 105, b: 180, a: 255 },
        59 => Color { r: 205, g: 92, b: 92, a: 255 },
        60 => Color { r: 75, g: 0, b: 130, a: 255 },
        61 => Color { r: 255, g: 255, b: 240, a: 255 },
        62 => Color { r: 240, g: 230, b: 140, a: 255 },
        63 => Color { r: 230, g: 230, b: 250, a: 255 },
        64 => Color { r: 255, g: 240, b: 245, a: 255 },
        65 => Color { r: 124, g: 252, b: 0, a: 255 },
        66 => Color { r: 255, g: 250, b: 205, a: 255 },
        67 => Color { r: 173, g: 216, b: 230, a: 255 },
        68 => Color { r: 240, g: 128, b: 128, a: 255 },
        69 => Color { r: 224, g: 255, b: 255, a: 255 },
        70 => Color { r: 250, g: 250, b: 210, a: 255 },
        71 => Color { r: 211, g: 211, b: 211, a: 255 },
        72 => Color { r: 144, g: 238, b: 144, a: 255 },
        73 => Color { r: 211, g: 211, b: 211, a: 255 },
        74 => Color { r: 255, g: 182, b: 193, a: 255 },
        75 => Color { r: 255, g: 160, b: 122, a: 255 },
        76 => Color { r: 32, g: 178, b: 170, a: 255 },
        77 => Color { r: 135, g: 206, b: 250, a: 255 },
        78 => Color { r: 119, g: 136, b: 153, a: 255 },
        79 => Color { r: 119, g: 136, b: 153, a: 255 },
        80 => Color { r: 176, g: 196, b: 222, a: 255 },
        81 => Color { r: 255, g: 255, b: 224, a: 255 },
        82 => Color { r: 0, g: 255, b: 0, a: 255 },
        83 => Color { r: 50, g: 205, b: 50, a: 255 },
        84 => Color { r: 250, g: 240, b: 230, a: 255 },
        85 => Color { r: 255, g: 0, b: 255, a: 255 },
        86 => Color { r: 128, g: 0, b: 0, a: 255 },
        87 => Color { r: 102, g: 205, b: 170, a: 255 },
        88 => Color { r: 0, g: 0, b: 205, a: 255 },
        89 => Color { r: 186, g: 85, b: 211, a: 255 },
        90 => Color { r: 147, g: 112, b: 219, a: 255 },
        91 => Color { r: 60, g: 179, b: 113, a: 255 },
        92 => Color { r: 123, g: 104, b: 238, a: 255 },
        93 => Color { r: 0, g: 250, b: 154, a: 255 },
        94 => Color { r: 72, g: 209, b: 204, a: 255 },
        95 => Color { r: 199, g: 21, b: 133, a: 255 },
        96 => Color { r: 25, g: 25, b: 112, a: 255 },
        97 => Color { r: 245, g: 255, b: 250, a: 255 },
        98 => Color { r: 255, g: 228, b: 225, a: 255 },
        99 => Color { r: 255, g: 228, b: 181, a: 255 },
        100 => Color { r: 255, g: 222, b: 173, a: 255 },
        101 => Color { r: 0, g: 0, b: 128, a: 255 },
        102 => Color { r: 253, g: 245, b: 230, a: 255 },
        103 => Color { r: 128, g: 128, b: 0, a: 255 },
        104 => Color { r: 107, g: 142, b: 35, a: 255 },
        105 => Color { r: 255, g: 165, b: 0, a: 255 },
        106 => Color { r: 255, g: 69, b: 0, a: 255 },
        107 => Color { r: 218, g: 112, b: 214, a: 255 },
        108 => Color { r: 238, g: 232, b: 170, a: 255 },
        109 => Color { r: 152, g: 251, b: 152, a: 255 },
        110 => Color { r: 175, g: 238, b: 238, a: 255 },
        111 => Color { r: 219, g: 112, b: 147, a: 255 },
        112 => Color { r: 255, g: 239, b: 213, a: 255 },
        113 => Color { r: 255, g: 218, b: 185, a: 255 },
        114 => Color { r: 205, g: 133, b: 63, a: 255 },
        115 => Color { r: 255, g: 192, b: 203, a: 255 },
        116 => Color { r: 221, g: 160, b: 221, a: 255 },
        117 => Color { r: 176, g: 224, b: 230, a: 255 },
        118 => Color { r: 128, g: 0, b: 128, a: 255 },
        119 => Color { r: 102, g: 51, b: 153, a: 255 },
        120 => Color { r: 255, g: 0, b: 0, a: 255 },
        121 => Color { r: 188, g: 143, b: 143, a: 255 },
        122 => Color { r: 65, g: 105, b: 225, a: 255 },
        123 => Color { r: 139, g: 69, b: 19, a: 255 },
        124 => Color { r: 250, g: 128, b: 114, a: 255 },
        125 => Color { r: 244, g: 164, b: 96, a: 255 },
        126 => Color { r: 46, g: 139, b: 87, a: 255 },
        127 => Color { r: 255, g: 245, b: 238, a: 255 },
        128 => Color { r: 160, g: 82, b: 45, a: 255 },
        129 => Color { r: 192, g: 192, b: 192, a: 255 },
        130 => Color { r: 135, g: 206, b: 235, a: 255 },
        131 => Color { r: 106, g: 90, b: 205, a: 255 },
        132 => Color { r: 112, g: 128, b: 144, a: 255 },
        133 => Color { r: 112, g: 128, b: 144, a: 255 },
        134 => Color { r: 255, g: 250, b: 250, a: 255 },
        135 => Color { r: 0, g: 255, b: 127, a: 255 },
        136 => Color { r: 70, g: 130, b: 180, a: 255 },
        137 => Color { r: 210, g: 180, b: 140, a: 255 },
        138 => Color { r: 0, g: 128, b: 128, a: 255 },
        139 => Color { r: 216, g: 191, b: 216, a: 255 },
        140 => Color { r: 255, g: 99, b: 71, a: 255 },
        141 => Color { r: 0, g: 0, b: 0, a: 0 },
        142 => Color { r: 64, g: 224, b: 208, a: 255 },
        143 => Color { r: 238, g: 130, b: 238, a: 255 },
        144 => Color { r: 245, g: 222, b: 179, a: 255 },
        145 => Color { r: 255, g: 255, b: 255, a: 255 },
        146 => Color { r: 245, g: 245, b: 245, a: 255 },
        147 => Color { r: 255, g: 255, b: 0, a: 255 },
        148 => Color { r: 154, g: 205, b: 50, a: 255 },
        _ => Color { r: 0, g: 0, b: 0, a: 0 },
    }
}

/// Whether `name`, lower-cased with bit `0x20` when `folded`, is the keyword name `word`.
pub open spec fn spells(word: Seq<u8>, name: Seq<u8>, folded: bool) -> bool {
    word == if folded {
        lower_all(name)
    } else {
        name
    }
}

/// The last index below `n` whose name `name` spells.
pub open spec fn last_spelled(name: Seq<u8>, folded: bool, n: int) -> Option<int>
    decreases n,
{
    if n <= 0 {
        None
    } else if spells(keyword_name((n - 1) as usize), name, folded) {
        Some(n - 1)
    } else {
        last_spelled(name, folded, n - 1)
    }
}

/// The named colour that `name` spells, if any.
#[verifier::opaque]
pub open spec fn keyword_lookup(name: Seq<u8>, folded: bool) -> Option<Color> {
    match last_spelled(name, folded, KEYWORD_COUNT as int) {
        Some(i) => Some(keyword_color(i as usize)),
        None => None,
    }
}

/// The first index at or after `i` of an opaque named colour with these channels.
pub open spec fn first_opaque_from(r: u8, g: u8, b: u8, i: int) -> Option<int>
    decreases KEYWORD_COUNT - i,
{
    if i >= KEYWORD_COUNT {
        None
    } else if keyword_color(i as usize).a == 255 && keyword_color(i as usize).r == r
        && keyword_color(i as usize).g == g && keyword_color(i as usize).b == b {
        Some(i)
    } else {
        first_opaque_from(r, g, b, i + 1)
    }
}

/// The first opaque named colour with these channels.
pub open spec fn opaque_name_index(r: u8, g: u8, b: u8) -> Option<int> {
    first_opaque_from(r, g, b, 0)
}

/// The `i`-th entry of the table.
pub fn keyword_at(i: usize) -> (e: (&'static str, Color))
    requires
        i < KEYWORD_COUNT,
    ensures
        e.0.spec_bytes() == keyword_name(i),
        e.1 == keyword_color(i),
{
    broadcast use vstd::string::group_string_axioms;
    match i {
        0 => {
            proof {
                reveal_strlit("aliceblue");
            }
            let w = "aliceblue";
            assert(w@ =~= seq!['a', 'l', 'i', 'c', 'e', 'b', 'l', 'u', 'e']);
            assert(vstd::string::is_ascii(w));
            (w, Color { r: 240, g: 248, b: 255, a: 255 })
        },
        1 => {
            proof {
                reveal_strlit("antiquewhite");
            }
            let w = "antiquewhite";
            assert(w@ =~= seq!['a', 'n', 't', 'i', 'q', 'u', 'e', 'w', 'h', 'i', 't', 'e']);
            assert(vstd::string::is_ascii(w));
            (w, Color { r: 250, g: 235, b: 215, a: 255 })
        },
        2 => {
            proof {
                reveal_strlit("aqua");
            }
            let w = "aqua";
            assert(w@ =~= seq!['a', 'q', 'u', 'a']);
            assert(vstd::string::is_ascii(w));
            (w, Color { r: 0, g: 255, b: 255, a: 255 })
        },
        3 => {
            proof {
                reveal_strlit("aquamarine");
            }
            let w = "aquamarine";
            assert(w@ =~= seq!['a', 'q', 'u', 'a', 'm', 'a', 'r', 'i', 'n', 'e']);
            assert(vstd::string::is_ascii(w));
            (w, Color { r: 127, g: 255, b: 212, a: 255 })
        },
        4 => {
            proof {
                reveal_strlit("azure");
            }
            let w = "azure";
            assert(w@ =~= seq!['a', 'z', 'u', 'r', 'e']);
            assert(vstd::string::is_ascii(w));
            (w, Color { r: 240, g: 255, b: 255, a: 255 })
        },
        5 => {
            proof {
                reveal_strlit("beige");
            }
            let w = "beige";
            assert(w@ =~= seq!['b', 'e', 'i', 'g', 'e']);
            assert(vstd::string::is_ascii(w));
            (w, Color { r: 245, g: 245, b: 220, a: 255 })
        },
        6 => {
            proof {
                reveal_strlit("bisque");
            }
            let w = "bisque";
            assert(w@ =~= seq!['b', 'i', 's', 'q', 'u', 'e']);
            assert(vstd::string::is_ascii(w));
            (w, Color { r: 255, g: 228, b: 196, a: 255 })
        },
        7 => {
            proof {
                reveal_strlit("black");
            }
            let w = "black";
            assert(w@ =~= seq!['b', 'l', 'a', 'c', 'k']);
            assert(vstd::string::is_ascii(w));
            (w, Color { r: 0, g: 0, b: 0, a: 255 })
        },
        8 => {
            proof {
                reveal_strlit("blanchedalmond");
            }
            let w = "blanchedalmond";
            assert(w@ =~= seq!['b', 'l', 'a', 'n', 'c', 'h', 'e', 'd', 'a', 'l', 'm', 'o', 'n', 'd']);
            assert(vstd::string::is_ascii(w));
            (w, Color { r: 255, g: 235, b: 205, a: 255 })
        },
        9 => {
            proof {
                reveal_strlit("blue");
            }
            let w = "blue";
            assert(w@ =~= seq!['b', 'l', 'u', 'e']);
            assert(vstd::string::is_ascii(w));
            (w, Color { r: 0, g: 0, b: 255, a: 255 })
        },
        10 => {
            proof {
                reveal_strlit("blueviolet");
            }
            let w = "blueviolet";
            assert(w@ =~= seq!['b', 'l', 'u', 'e', 'v', 'i', 'o', 'l', 'e', 't']);
            assert(vstd::string::is_ascii(w));
            (w, Color { r: 138, g: 43, b: 226, a: 255 })
        },
        11 => {
            proof {
                reveal_strlit("brown");
            }
            let w = "brown";
            assert(w@ =~= seq!['b', 'r', 'o', 'w', 'n']);
            assert(vstd::string::is_ascii(w));
            (w, Color { r: 165, g: 42, b: 42, a: 255 })
        },
        12 => {
            proof {
                reveal_strlit("burlywood");
            }
            let w = "burlywood";
            assert(w@ =~= seq!['b', 'u', 'r', 'l', 'y', 'w', 'o', 'o', 'd']);
            assert(vstd::string::is_ascii(w));
            (w, Color { r: 222, g: 184, b: 135, a: 255 })
        },
        13 => {
            proof {
                reveal_strlit("cadetblue");
            }
            let w = "cadetblue";
            assert(w@ =~= seq!['c', 'a', 'd', 'e', 't', 'b', 'l', 'u', 'e']);
            assert(vstd::string::is_ascii(w));
            (w, Color { r: 95, g: 158, b: 160, a: 255 })
        },
        14 => {
            proof {
                reveal_strlit("chartreuse");
            }
            let w = "chartreuse";
            assert(w@ =~= seq!['c', 'h', 'a', 'r', 't', 'r', 'e', 'u', 's', 'e']);
            assert(vstd::string::is_ascii(w));
            (w, Color { r: 127, g: 255, b: 0, a: 255 })
        },
        15 => {
            proof {
                reveal_strlit("chocolate");
            }
            let w = "chocolate";
            assert(w@ =~= seq!['c', 'h', 'o', 'c', 'o', 'l', 'a', 't', 'e']);
            assert(vstd::string::is_ascii(w));
            (w, Color { r: 210, g: 105, b: 30, a: 255 })
        },
        16 => {
            proof {
                reveal_strlit("coral");
            }
            let w = "coral";
            assert(w@ =~= seq!['c', 'o', 'r', 'a', 'l']);
            assert(vstd::string::is_ascii(w));
            (w, Color { r: 255, g: 127, b: 80, a: 255 })
        },
        17 => {
            proof {
                reveal_strlit("cornflowerblue");
            }
            let w = "cornflowerblue";
            assert(w@ =~= seq!['c', 'o', 'r', 'n', 'f', 'l', 'o', 'w', 'e', 'r', 'b', 'l', 'u', 'e']);
            assert(vstd::string::is_ascii(w));
            (w, Color { r: 100, g: 149, b: 237, a: 255 })
        },
        18 => {
            proof {
                reveal_strlit("cornsilk");
            }
            let w = "cornsilk";
            assert(w@ =~= seq!['c', 'o', 'r', 'n', 's', 'i', 'l', 'k']);
            assert(vstd::string::is_ascii(w));
            (w, Color { r: 255, g: 248, b: 220, a: 255 })
        },
        19 => {
            proof {
                reveal_strlit("crimson");
            }
            let w = "crimson";
            assert(w@ =~= seq!['c', 'r', 'i', 'm', 's', 'o', 'n']);
            assert(vstd::string::is_ascii(w));
            (w, Color { r: 220, g: 20, b: 60, a: 255 })
        },
        20 => {
            proof {
                reveal_strlit("cyan");
            }
            let w = "cyan";
            assert(w@ =~= seq!['c', 'y', 'a', 'n']);
            assert(vstd::string::is_ascii(w));
            (w, Color { r: 0, g: 255, b: 255, a: 255 })
        },
        21 => {
            proof {
                reveal_strlit("darkblue");
            }
            let w = "darkblue";
            assert(w@ =~= seq!['d', 'a', 'r', 'k', 'b', 'l', 'u', 'e']);
            assert(vstd::string::is_ascii(w));
            (w, Color { r: 0, g: 0, b: 139, a: 255 })
        },
        22 => {
            proof {
                reveal_strlit("darkcyan");
            }
            let w = "darkcyan";
            assert(w@ =~= seq!['d', 'a', 'r', 'k', 'c', 'y', 'a', 'n']);
            assert(vstd::string::is_ascii(w));
            (w, Color { r: 0, g: 139, b: 139, a: 255 })
        },
        23 => {
            proof {
                reveal_strlit("darkgoldenrod");
            }
            let w = "darkgoldenrod";
            assert(w@ =~= seq!['d', 'a', 'r', 'k', 'g', 'o', 'l', 'd', 'e', 'n', 'r', 'o', 'd']);
            assert(vstd::string::is_ascii(w));
            (w, Color { r: 184, g: 134, b: 11, a: 255 })
        },
        24 => {
            proof {
                reveal_strlit("darkgray");
            }
            let w = "darkgray";
            assert(w@ =~= seq!['d', 'a', 'r', 'k', 'g', 'r', 'a', 'y']);
            assert(vstd::string::is_ascii(w));
            (w, Color { r: 169, g: 169, b: 169, a: 255 })
        },
        25 => {
            proof {
                reveal_strlit("darkgreen");
            }
            let w = "darkgreen";
            assert(w@ =~= seq!['d', 'a', 'r', 'k', 'g', 'r', 'e', 'e', 'n']);
            assert(vstd::string::is_ascii(w));
            (w, Color { r: 0, g: 100, b: 0, a: 255 })
        },
        26 => {
            proof {
                reveal_strlit("darkgrey");
            }
            let w = "darkgrey";
            assert(w@ =~= seq!['d', 'a', 'r', 'k', 'g', 'r', 'e', 'y']);
            assert(vstd::string::is_ascii(w));
            (w, Color { r: 169, g: 169, b: 169, a: 255 })
        },
        27 => {
            proof {
                reveal_strlit("darkkhaki");
            }
            let w = "darkkhaki";
            assert(w@ =~= seq!['d', 'a', 'r', 'k', 'k', 'h', 'a', 'k', 'i']);
            assert(vstd::string::is_ascii(w));
            (w, Color { r: 189, g: 183, b: 107, a: 255 })
        },
        28 => {
            proof {
                reveal_strlit("darkmagenta");
            }
            let w = "darkmagenta";
            assert(w@ =~= seq!['d', 'a', 'r', 'k', 'm', 'a', 'g', 'e', 'n', 't', 'a']);
            assert(vstd::string::is_ascii(w));
            (w, Color { r: 139, g: 0, b: 139, a: 255 })
        },
        29 => {
            proof {
                reveal_strlit("darkolivegreen");
            }
            let w = "darkolivegreen";
            assert(w@ =~= seq!['d', 'a', 'r', 'k', 'o', 'l', 'i', 'v', 'e', 'g', 'r', 'e', 'e', 'n']);
            assert(vstd::string::is_ascii(w));
            (w, Color { r: 85, g: 107, b: 47, a: 255 })
        },
        30 => {
            proof {
                reveal_strlit("darkorange");
            }
            let w = "darkorange";
            assert(w@ =~= seq!['d', 'a', 'r', 'k', 'o', 'r', 'a', 'n', 'g', 'e']);
            assert(vstd::string::is_ascii(w));
            (w, Color { r: 255, g: 140, b: 0, a: 255 })
        },
        31 => {
            proof {
                reveal_strlit("darkorchid");
            }
            let w = "darkorchid";
            assert(w@ =~= seq!['d', 'a', 'r', 'k', 'o', 'r', 'c', 'h', 'i', 'd']);
            assert(vstd::string::is_ascii(w));
            (w, Color { r: 153, g: 50, b: 204, a: 255 })
        },
        32 => {
            proof {
                reveal_strlit("darkred");
            }
            let w = "darkred";
            assert(w@ =~= seq!['d', 'a', 'r', 'k', 'r', 'e', 'd']);
            assert(vstd::string::is_ascii(w));
            (w, Color { r: 139, g: 0, b: 0, a: 255 })
        },
        33 => {
            proof {
                reveal_strlit("darksalmon");
            }
            let w = "darksalmon";
            assert(w@ =~= seq!['d', 'a', 'r', 'k', 's', 'a', 'l', 'm', 'o', 'n']);
            assert(vstd::string::is_ascii(w));
            (w, Color { r: 233, g: 150, b: 122, a: 255 })
        },
        34 => {
            proof {
                reveal_strlit("darkseagreen");
            }
            let w = "darkseagreen";
            assert(w@ =~= seq!['d', 'a', 'r', 'k', 's', 'e', 'a', 'g', 'r', 'e', 'e', 'n']);
            assert(vstd::string::is_ascii(w));
            (w, Color { r: 143, g: 188, b: 143, a: 255 })
        },
        35 => {
            proof {
                reveal_strlit("darkslateblue");
            }
            let w = "darkslateblue";
            assert(w@ =~= seq!['d', 'a', 'r', 'k', 's', 'l', 'a', 't', 'e', 'b', 'l', 'u', 'e']);
            assert(vstd::string::is_ascii(w));
            (w, Color { r: 72, g: 61, b: 139, a: 255 })
        },
        36 => {
            proof {
                reveal_strlit("darkslategray");
            }
            let w = "darkslategray";
            assert(w@ =~= seq!['d', 'a', 'r', 'k', 's', 'l', 'a', 't', 'e', 'g', 'r', 'a', 'y']);
            assert(vstd::string::is_ascii(w));
            (w, Color { r: 47, g: 79, b: 79, a: 255 })
        },
        37 => {
            proof {
                reveal_strlit("darkslategrey");
            }
            let w = "darkslategrey";
            assert(w@ =~= seq!['d', 'a', 'r', 'k', 's', 'l', 'a', 't', 'e', 'g', 'r', 'e', 'y']);
            assert(vstd::string::is_ascii(w));
            (w, Color { r: 47, g: 79, b: 79, a: 255 })
        },
        38 => {
            proof {
                reveal_strlit("darkturquoise");
            }
            let w = "darkturquoise";
            assert(w@ =~= seq!['d', 'a', 'r', 'k', 't', 'u', 'r', 'q', 'u', 'o', 'i', 's', 'e']);
            assert(vstd::string::is_ascii(w));
            (w, Color { r: 0, g: 206, b: 209, a: 255 })
        },
        39 => {
            proof {
                reveal_strlit("darkviolet");
            }
            let w = "darkviolet";
            assert(w@ =~= seq!['d', 'a', 'r', 'k', 'v', 'i', 'o', 'l', 'e', 't']);
            assert(vstd::string::is_ascii(w));
            (w, Color { r: 148, g: 0, b: 211, a: 255 })
        },
        40 => {
            proof {
                reveal_strlit("deeppink");
            }
            let w = "deeppink";
            assert(w@ =~= seq!['d', 'e', 'e', 'p', 'p', 'i', 'n', 'k']);
            assert(vstd::string::is_ascii(w));
            (w, Color { r: 255, g: 20, b: 147, a: 255 })
        },
        41 => {
            proof {
                reveal_strlit("deepskyblue");
            }
            let w = "deepskyblue";
            assert(w@ =~= seq!['d', 'e', 'e', 'p', 's', 'k', 'y', 'b', 'l', 'u', 'e']);
            assert(vstd::string::is_ascii(w));
            (w, Color { r: 0, g: 191, b: 255, a: 255 })
        },
        42 => {
            proof {
                reveal_strlit("dimgray");
            }
            let w = "dimgray";
            assert(w@ =~= seq!['d', 'i', 'm', 'g', 'r', 'a', 'y']);
            assert(vstd::string::is_ascii(w));
            (w, Color { r: 105, g: 105, b: 105, a: 255 })
        },
        43 => {
            proof {
                reveal_strlit("dimgrey");
            }
            let w = "dimgrey";
            assert(w@ =~= seq!['d', 'i', 'm', 'g', 'r', 'e', 'y']);
            assert(vstd::string::is_ascii(w));
            (w, Color { r: 105, g: 105, b: 105, a: 255 })
        },
        44 => {
            proof {
                reveal_strlit("dodgerblue");
            }
            let w = "dodgerblue";
            assert(w@ =~= seq!['d', 'o', 'd', 'g', 'e', 'r', 'b', 'l', 'u', 'e']);
            assert(vstd::string::is_ascii(w));
            (w, Color { r: 30, g: 144, b: 255, a: 255 })
        },
        45 => {
            proof {
                reveal_strlit("firebrick");
            }
            let w = "firebrick";
            assert(w@ =~= seq!['f', 'i', 'r', 'e', 'b', 'r', 'i', 'c', 'k']);
            assert(vstd::string::is_ascii(w));
            (w, Color { r: 178, g: 34, b: 34, a: 255 })
        },
        46 => {
            proof {
                reveal_strlit("floralwhite");
            }
            let w = "floralwhite";
            assert(w@ =~= seq!['f', 'l', 'o', 'r', 'a', 'l', 'w', 'h', 'i', 't', 'e']);
            assert(vstd::string::is_ascii(w));
            (w, Color { r: 255, g: 250, b: 240, a: 255 })
        },
        47 => {
            proof {
                reveal_strlit("forestgreen");
            }
            let w = "forestgreen";
            assert(w@ =~= seq!['f', 'o', 'r', 'e', 's', 't', 'g', 'r', 'e', 'e', 'n']);
            assert(vstd::string::is_ascii(w));
            (w, Color { r: 34, g: 139, b: 34, a: 255 })
        },
        48 => {
            proof {
                reveal_strlit("fuchsia");
            }
            let w = "fuchsia";
            assert(w@ =~= seq!['f', 'u', 'c', 'h', 's', 'i', 'a']);
            assert(vstd::string::is_ascii(w));
            (w, Color { r: 255, g: 0, b: 255, a: 255 })
        },
        49 => {
            proof {
                reveal_strlit("gainsboro");
            }
            let w = "gainsboro";
            assert(w@ =~= seq!['g', 'a', 'i', 'n', 's', 'b', 'o', 'r', 'o']);
            assert(vstd::string::is_ascii(w));
            (w, Color { r: 220, g: 220, b: 220, a: 255 })
        },
        50 => {
            proof {
                reveal_strlit("ghostwhite");
            }
            let w = "ghostwhite";
            assert(w@ =~= seq!['g', 'h', 'o', 's', 't', 'w', 'h', 'i', 't', 'e']);
            assert(vstd::string::is_ascii(w));
            (w, Color { r: 248, g: 248, b: 255, a: 255 })
        },
        51 => {
            proof {
                reveal_strlit("gold");
            }
            let w = "gold";
            assert(w@ =~= seq!['g', 'o', 'l', 'd']);
            assert(vstd::string::is_ascii(w));
            (w, Color { r: 255, g: 215, b: 0, a: 255 })
        },
        52 => {
            proof {
                reveal_strlit("goldenrod");
            }
            let w = "goldenrod";
            assert(w@ =~= seq!['g', 'o', 'l', 'd', 'e', 'n', 'r', 'o', 'd']);
            assert(vstd::string::is_ascii(w));
            (w, Color { r: 218, g: 165, b: 32, a: 255 })
        },
        53 => {
            proof {
                reveal_strlit("gray");
            }
            let w = "gray";
            assert(w@ =~= seq!['g', 'r', 'a', 'y']);
            assert(vstd::string::is_ascii(w));
            (w, Color { r: 128, g: 128, b: 128, a: 255 })
        },
        54 => {
            proof {
                reveal_strlit("green");
            }
            let w = "green";
            assert(w@ =~= seq!['g', 'r', 'e', 'e', 'n']);
            assert(vstd::string::is_ascii(w));
            (w, Color { r: 0, g: 128, b: 0, a: 255 })
        },
        55 => {
            proof {
                reveal_strlit("greenyellow");
            }
            let w = "greenyellow";
            assert(w@ =~= seq!['g', 'r', 'e', 'e', 'n', 'y', 'e', 'l', 'l', 'o', 'w']);
            assert(vstd::string::is_ascii(w));
            (w, Color { r: 173, g: 255, b: 47, a: 255 })
        },
        56 => {
            proof {
                reveal_strlit("grey");
            }
            let w = "grey";
            assert(w@ =~= seq!['g', 'r', 'e', 'y']);
            assert(vstd::string::is_ascii(w));
            (w, Color { r: 128, g: 128, b: 128, a: 255 })
        },
        57 => {
            proof {
                reveal_strlit("honeydew");
            }
            let w = "honeydew";
            assert(w@ =~= seq!['h', 'o', 'n', 'e', 'y', 'd', 'e', 'w']);
            assert(vstd::string::is_ascii(w));
            (w, Color { r: 240, g: 255, b: 240, a: 255 })
        },
        58 => {
            proof {
                reveal_strlit("hotpink");
            }
            let w = "hotpink";
            assert(w@ =~= seq!['h', 'o', 't', 'p', 'i', 'n', 'k']);
            assert(vstd::string::is_ascii(w));
            (w, Color { r: 255, g: 105, b: 180, a: 255 })
        },
        59 => {
            proof {
                reveal_strlit("indianred");
            }
            let w = "indianred";
            assert(w@ =~= seq!['i', 'n', 'd', 'i', 'a', 'n', 'r', 'e', 'd']);
            assert(vstd::string::is_ascii(w));
            (w, Color { r: 205, g: 92, b: 92, a: 255 })
        },
        60 => {
            proof {
                reveal_strlit("indigo");
            }
            let w = "indigo";
            assert(w@ =~= seq!['i', 'n', 'd', 'i', 'g', 'o']);
            assert(vstd::string::is_ascii(w));
            (w, Color { r: 75, g: 0, b: 130, a: 255 })
        },
        61 => {
            proof {
                reveal_strlit("ivory");
            }
            let w = "ivory";
            assert(w@ =~= seq!['i', 'v', 'o', 'r', 'y']);
            assert(vstd::string::is_ascii(w));
            (w, Color { r: 255, g: 255, b: 240, a: 255 })
        },
        62 => {
            proof {
                reveal_strlit("khaki");
            }
            let w = "khaki";
            assert(w@ =~= seq!['k', 'h', 'a', 'k', 'i']);
            assert(vstd::string::is_ascii(w));
            (w, Color { r: 240, g: 230, b: 140, a: 255 })
        },
        63 => {
            proof {
                reveal_strlit("lavender");
            }
            let w = "lavender";
            assert(w@ =~= seq!['l', 'a', 'v', 'e', 'n', 'd', 'e', 'r']);
            assert(vstd::string::is_ascii(w));
            (w, Color { r: 230, g: 230, b: 250, a: 255 })
        },
        64 => {
            proof {
                reveal_strlit("lavenderblush");
            }
            let w = "lavenderblush";
            assert(w@ =~= seq!['l', 'a', 'v', 'e', 'n', 'd', 'e', 'r', 'b', 'l', 'u', 's', 'h']);
            assert(vstd::string::is_ascii(w));
            (w, Color { r: 255, g: 240, b: 245, a: 255 })
        },
        65 => {
            proof {
                reveal_strlit("lawngreen");
            }
            let w = "lawngreen";
            assert(w@ =~= seq!['l', 'a', 'w', 'n', 'g', 'r', 'e', 'e', 'n']);
            assert(vstd::string::is_ascii(w));
            (w, Color { r: 124, g: 252, b: 0, a: 255 })
        },
        66 => {
            proof {
                reveal_strlit("lemonchiffon");
            }
            let w = "lemonchiffon";
            assert(w@ =~= seq!['l', 'e', 'm', 'o', 'n', 'c', 'h', 'i', 'f', 'f', 'o', 'n']);
            assert(vstd::string::is_ascii(w));
            (w, Color { r: 255, g: 250, b: 205, a: 255 })
        },
        67 => {
            proof {
                reveal_strlit("lightblue");
            }
            let w = "lightblue";
            assert(w@ =~= seq!['l', 'i', 'g', 'h', 't', 'b', 'l', 'u', 'e']);
            assert(vstd::string::is_ascii(w));
            (w, Color { r: 173, g: 216, b: 230, a: 255 })
        },
        68 => {
            proof {
                reveal_strlit("lightcoral");
            }
            let w = "lightcoral";
            assert(w@ =~= seq!['l', 'i', 'g', 'h', 't', 'c', 'o', 'r', 'a', 'l']);
            assert(vstd::string::is_ascii(w));
            (w, Color { r: 240, g: 128, b: 128, a: 255 })
        },
        69 => {
            proof {
                reveal_strlit("lightcyan");
            }
            let w = "lightcyan";
            assert(w@ =~= seq!['l', 'i', 'g', 'h', 't', 'c', 'y', 'a', 'n']);
            assert(vstd::string::is_ascii(w));
            (w, Color { r: 224, g: 255, b: 255, a: 255 })
        },
        70 => {
            proof {
                reveal_strlit("lightgoldenrodyellow");
            }
            let w = "lightgoldenrodyellow";
            assert(w@ =~= seq!['l', 'i', 'g', 'h', 't', 'g', 'o', 'l', 'd', 'e', 'n', 'r', 'o', 'd', 'y', 'e', 'l', 'l', 'o', 'w']);
            assert(vstd::string::is_ascii(w));
            (w, Color { r: 250, g: 250, b: 210, a: 255 })
        },
        71 => {
            proof {
                reveal_strlit("lightgray");
            }
            let w = "lightgray";
            assert(w@ =~= seq!['l', 'i', 'g', 'h', 't', 'g', 'r', 'a', 'y']);
            assert(vstd::string::is_ascii(w));
            (w, Color { r: 211, g: 211, b: 211, a: 255 })
        },
        72 => {
            proof {
                reveal_strlit("lightgreen");
            }
            let w = "lightgreen";
            assert(w@ =~= seq!['l', 'i', 'g', 'h', 't', 'g', 'r', 'e', 'e', 'n']);
            assert(vstd::string::is_ascii(w));
            (w, Color { r: 144, g: 238, b: 144, a: 255 })
        },
        73 => {
            proof {
                reveal_strlit("lightgrey");
            }
            let w = "lightgrey";
            assert(w@ =~= seq!['l', 'i', 'g', 'h', 't', 'g', 'r', 'e', 'y']);
            assert(vstd::string::is_ascii(w));
            (w, Color { r: 211, g: 211, b: 211, a: 255 })
        },
        74 => {
            proof {
                reveal_strlit("lightpink");
            }
            let w = "lightpink";
            assert(w@ =~= seq!['l', 'i', 'g', 'h', 't', 'p', 'i', 'n', 'k']);
            assert(vstd::string::is_ascii(w));
            (w, Color { r: 255, g: 182, b: 193, a: 255 })
        },
        75 => {
            proof {
                reveal_strlit("lightsalmon");
            }
            let w = "lightsalmon";
            assert(w@ =~= seq!['l', 'i', 'g', 'h', 't', 's', 'a', 'l', 'm', 'o', 'n']);
            assert(vstd::string::is_ascii(w));
            (w, Color { r: 255, g: 160, b: 122, a: 255 })
        },
        76 => {
            proof {
                reveal_strlit("lightseagreen");
            }
            let w = "lightseagreen";
            assert(w@ =~= seq!['l', 'i', 'g', 'h', 't', 's', 'e', 'a', 'g', 'r', 'e', 'e', 'n']);
            assert(vstd::string::is_ascii(w));
            (w, Color { r: 32, g: 178, b: 170, a: 255 })
        },
        77 => {
            proof {
                reveal_strlit("lightskyblue");
            }
            let w = "lightskyblue";
            assert(w@ =~= seq!['l', 'i', 'g', 'h', 't', 's', 'k', 'y', 'b', 'l', 'u', 'e']);
            assert(vstd::string::is_ascii(w));
            (w, Color { r: 135, g: 206, b: 250, a: 255 })
        },
        78 => {
            proof {
                reveal_strlit("lightslategray");
            }
            let w = "lightslategray";
            assert(w@ =~= seq!['l', 'i', 'g', 'h', 't', 's', 'l', 'a', 't', 'e', 'g', 'r', 'a', 'y']);
            assert(vstd::string::is_ascii(w));
            (w, Color { r: 119, g: 136, b: 153, a: 255 })
        },
        79 => {
            proof {
                reveal_strlit("lightslategrey");
            }
            let w = "lightslategrey";
            assert(w@ =~= seq!['l', 'i', 'g', 'h', 't', 's', 'l', 'a', 't', 'e', 'g', 'r', 'e', 'y']);
            assert(vstd::string::is_ascii(w));
            (w, Color { r: 119, g: 136, b: 153, a: 255 })
        },
        80 => {
            proof {
                reveal_strlit("lightsteelblue");
            }
            let w = "lightsteelblue";
            assert(w@ =~= seq!['l', 'i', 'g', 'h', 't', 's', 't', 'e', 'e', 'l', 'b', 'l', 'u', 'e']);
            assert(vstd::string::is_ascii(w));
            (w, Color { r: 176, g: 196, b: 222, a: 255 })
        },
        81 => {
            proof {
                reveal_strlit("lightyellow");
            }
            let w = "lightyellow";
            assert(w@ =~= seq!['l', 'i', 'g', 'h', 't', 'y', 'e', 'l', 'l', 'o', 'w']);
            assert(vstd::string::is_ascii(w));
            (w, Color { r: 255, g: 255, b: 224, a: 255 })
        },
        82 => {
            proof {
                reveal_strlit("lime");
            }
            let w = "lime";
            assert(w@ =~= seq!['l', 'i', 'm', 'e']);
            assert(vstd::string::is_ascii(w));
            (w, Color { r: 0, g: 255, b: 0, a: 255 })
        },
        83 => {
            proof {
                reveal_strlit("limegreen");
            }
            let w = "limegreen";
            assert(w@ =~= seq!['l', 'i', 'm', 'e', 'g', 'r', 'e', 'e', 'n']);
            assert(vstd::string::is_ascii(w));
            (w, Color { r: 50, g: 205, b: 50, a: 255 })
        },
        84 => {
            proof {
                reveal_strlit("linen");
            }
            let w = "linen";
            assert(w@ =~= seq!['l', 'i', 'n', 'e', 'n']);
            assert(vstd::string::is_ascii(w));
            (w, Color { r: 250, g: 240, b: 230, a: 255 })
        },
        85 => {
            proof {
                reveal_strlit("magenta");
            }
            let w = "magenta";
            assert(w@ =~= seq!['m', 'a', 'g', 'e', 'n', 't', 'a']);
            assert(vstd::string::is_ascii(w));
            (w, Color { r: 255, g: 0, b: 255, a: 255 })
        },
        86 => {
            proof {
                reveal_strlit("maroon");
            }
            let w = "maroon";
            assert(w@ =~= seq!['m', 'a', 'r', 'o', 'o', 'n']);
            assert(vstd::string::is_ascii(w));
            (w, Color { r: 128, g: 0, b: 0, a: 255 })
        },
        87 => {
            proof {
                reveal_strlit("mediumaquamarine");
            }
            let w = "mediumaquamarine";
            assert(w@ =~= seq!['m', 'e', 'd', 'i', 'u', 'm', 'a', 'q', 'u', 'a', 'm', 'a', 'r', 'i', 'n', 'e']);
            assert(vstd::string::is_ascii(w));
            (w, Color { r: 102, g: 205, b: 170, a: 255 })
        },
        88 => {
            proof {
                reveal_strlit("mediumblue");
            }
            let w = "mediumblue";
            assert(w@ =~= seq!['m', 'e', 'd', 'i', 'u', 'm', 'b', 'l', 'u', 'e']);
            assert(vstd::string::is_ascii(w));
            (w, Color { r: 0, g: 0, b: 205, a: 255 })
        },
        89 => {
            proof {
                reveal_strlit("mediumorchid");
            }
            let w = "mediumorchid";
            assert(w@ =~= seq!['m', 'e', 'd', 'i', 'u', 'm', 'o', 'r', 'c', 'h', 'i', 'd']);
            assert(vstd::string::is_ascii(w));
            (w, Color { r: 186, g: 85, b: 211, a: 255 })
        },
        90 => {
            proof {
                reveal_strlit("mediumpurple");
            }
            let w = "mediumpurple";
            assert(w@ =~= seq!['m', 'e', 'd', 'i', 'u', 'm', 'p', 'u', 'r', 'p', 'l', 'e']);
            assert(vstd::string::is_ascii(w));
            (w, Color { r: 147, g: 112, b: 219, a: 255 })
        },
        91 => {
            proof {
                reveal_strlit("mediumseagreen");
            }
            let w = "mediumseagreen";
            assert(w@ =~= seq!['m', 'e', 'd', 'i', 'u', 'm', 's', 'e', 'a', 'g', 'r', 'e', 'e', 'n']);
            assert(vstd::string::is_ascii(w));
            (w, Color { r: 60, g: 179, b: 113, a: 255 })
        },
        92 => {
            proof {
                reveal_strlit("mediumslateblue");
            }
            let w = "mediumslateblue";
            assert(w@ =~= seq!['m', 'e', 'd', 'i', 'u', 'm', 's', 'l', 'a', 't', 'e', 'b', 'l', 'u', 'e']);
            assert(vstd::string::is_ascii(w));
            (w, Color { r: 123, g: 104, b: 238, a: 255 })
        },
        93 => {
            proof {
                reveal_strlit("mediumspringgreen");
            }
            let w = "mediumspringgreen";
            assert(w@ =~= seq!['m', 'e', 'd', 'i', 'u', 'm', 's', 'p', 'r', 'i', 'n', 'g', 'g', 'r', 'e', 'e', 'n']);
            assert(vstd::string::is_ascii(w));
            (w, Color { r: 0, g: 250, b: 154, a: 255 })
        },
        94 => {
            proof {
                reveal_strlit("mediumturquoise");
            }
            let w = "mediumturquoise";
            assert(w@ =~= seq!['m', 'e', 'd', 'i', 'u', 'm', 't', 'u', 'r', 'q', 'u', 'o', 'i', 's', 'e']);
            assert(vstd::string::is_ascii(w));
            (w, Color { r: 72, g: 209, b: 204, a: 255 })
        },
        95 => {
            proof {
                reveal_strlit("mediumvioletred");
            }
            let w = "mediumvioletred";
            assert(w@ =~= seq!['m', 'e', 'd', 'i', 'u', 'm', 'v', 'i', 'o', 'l', 'e', 't', 'r', 'e', 'd']);
            assert(vstd::string::is_ascii(w));
            (w, Color { r: 199, g: 21, b: 133, a: 255 })
        },
        96 => {
            proof {
                reveal_strlit("midnightblue");
            }
            let w = "midnightblue";
            assert(w@ =~= seq!['m', 'i', 'd', 'n', 'i', 'g', 'h', 't', 'b', 'l', 'u', 'e']);
            assert(vstd::string::is_ascii(w));
            (w, Color { r: 25, g: 25, b: 112, a: 255 })
        },
        97 => {
            proof {
                reveal_strlit("mintcream");
            }
            let w = "mintcream";
            assert(w@ =~= seq!['m', 'i', 'n', 't', 'c', 'r', 'e', 'a', 'm']);
            assert(vstd::string::is_ascii(w));
            (w, Color { r: 245, g: 255, b: 250, a: 255 })
        },
        98 => {
            proof {
                reveal_strlit("mistyrose");
            }
            let w = "mistyrose";
            assert(w@ =~= seq!['m', 'i', 's', 't', 'y', 'r', 'o', 's', 'e']);
            assert(vstd::string::is_ascii(w));
            (w, Color { r: 255, g: 228, b: 225, a: 255 })
        },
        99 => {
            proof {
                reveal_strlit("moccasin");
            }
            let w = "moccasin";
            assert(w@ =~= seq!['m', 'o', 'c', 'c', 'a', 's', 'i', 'n']);
            assert(vstd::string::is_ascii(w));
            (w, Color { r: 255, g: 228, b: 181, a: 255 })
        },
        100 => {
            proof {
                reveal_strlit("navajowhite");
            }
            let w = "navajowhite";
            assert(w@ =~= seq!['n', 'a', 'v', 'a', 'j', 'o', 'w', 'h', 'i', 't', 'e']);
            assert(vstd::string::is_ascii(w));
            (w, Color { r: 255, g: 222, b: 173, a: 255 })
        },
        101 => {
            proof {
                reveal_strlit("navy");
            }
            let w = "navy";
            assert(w@ =~= seq!['n', 'a', 'v', 'y']);
            assert(vstd::string::is_ascii(w));
            (w, Color { r: 0, g: 0, b: 128, a: 255 })
        },
        102 => {
            proof {
                reveal_strlit("oldlace");
            }
            let w = "oldlace";
            assert(w@ =~= seq!['o', 'l', 'd', 'l', 'a', 'c', 'e']);
            assert(vstd::string::is_ascii(w));
            (w, Color { r: 253, g: 245, b: 230, a: 255 })
        },
        103 => {
            proof {
                reveal_strlit("olive");
            }
            let w = "olive";
            assert(w@ =~= seq!['o', 'l', 'i', 'v', 'e']);
            assert(vstd::string::is_ascii(w));
            (w, Color { r: 128, g: 128, b: 0, a: 255 })
        },
        104 => {
            proof {
                reveal_strlit("olivedrab");
            }
            let w = "olivedrab";
            assert(w@ =~= seq!['o', 'l', 'i', 'v', 'e', 'd', 'r', 'a', 'b']);
            assert(vstd::string::is_ascii(w));
            (w, Color { r: 107, g: 142, b: 35, a: 255 })
        },
        105 => {
            proof {
                reveal_strlit("orange");
            }
            let w = "orange";
            assert(w@ =~= seq!['o', 'r', 'a', 'n', 'g', 'e']);
            assert(vstd::string::is_ascii(w));
            (w, Color { r: 255, g: 165, b: 0, a: 255 })
        },
        106 => {
            proof {
                reveal_strlit("orangered");
            }
            let w = "orangered";
            assert(w@ =~= seq!['o', 'r', 'a', 'n', 'g', 'e', 'r', 'e', 'd']);
            assert(vstd::string::is_ascii(w));
            (w, Color { r: 255, g: 69, b: 0, a: 255 })
        },
        107 => {
            proof {
                reveal_strlit("orchid");
            }
            let w = "orchid";
            assert(w@ =~= seq!['o', 'r', 'c', 'h', 'i', 'd']);
            assert(vstd::string::is_ascii(w));
            (w, Color { r: 218, g: 112, b: 214, a: 255 })
        },
        108 => {
            proof {
                reveal_strlit("palegoldenrod");
            }
            let w = "palegoldenrod";
            assert(w@ =~= seq!['p', 'a', 'l', 'e', 'g', 'o', 'l', 'd', 'e', 'n', 'r', 'o', 'd']);
            assert(vstd::string::is_ascii(w));
            (w, Color { r: 238, g: 232, b: 170, a: 255 })
        },
        109 => {
            proof {
                reveal_strlit("palegreen");
            }
            let w = "palegreen";
            assert(w@ =~= seq!['p', 'a', 'l', 'e', 'g', 'r', 'e', 'e', 'n']);
            assert(vstd::string::is_ascii(w));
            (w, Color { r: 152, g: 251, b: 152, a: 255 })
        },
        110 => {
            proof {
                reveal_strlit("paleturquoise");
            }
            let w = "paleturquoise";
            assert(w@ =~= seq!['p', 'a', 'l', 'e', 't', 'u', 'r', 'q', 'u', 'o', 'i', 's', 'e']);
            assert(vstd::string::is_ascii(w));
            (w, Color { r: 175, g: 238, b: 238, a: 255 })
        },
        111 => {
            proof {
                reveal_strlit("palevioletred");
            }
            let w = "palevioletred";
            assert(w@ =~= seq!['p', 'a', 'l', 'e', 'v', 'i', 'o', 'l', 'e', 't', 'r', 'e', 'd']);
            assert(vstd::string::is_ascii(w));
            (w, Color { r: 219, g: 112, b: 147, a: 255 })
        },
        112 => {
            proof {
                reveal_strlit("papayawhip");
            }
            let w = "papayawhip";
            assert(w@ =~= seq!['p', 'a', 'p', 'a', 'y', 'a', 'w', 'h', 'i', 'p']);
            assert(vstd::string::is_ascii(w));
            (w, Color { r: 255, g: 239, b: 213, a: 255 })
        },
        113 => {
            proof {
                reveal_strlit("peachpuff");
            }
            let w = "peachpuff";
            assert(w@ =~= seq!['p', 'e', 'a', 'c', 'h', 'p', 'u', 'f', 'f']);
            assert(vstd::string::is_ascii(w));
            (w, Color { r: 255, g: 218, b: 185, a: 255 })
        },
        114 => {
            proof {
                reveal_strlit("peru");
            }
            let w = "peru";
            assert(w@ =~= seq!['p', 'e', 'r', 'u']);
            assert(vstd::string::is_ascii(w));
            (w, Color { r: 205, g: 133, b: 63, a: 255 })
        },
        115 => {
            proof {
                reveal_strlit("pink");
            }
            let w = "pink";
            assert(w@ =~= seq!['p', 'i', 'n', 'k']);
            assert(vstd::string::is_ascii(w));
            (w, Color { r: 255, g: 192, b: 203, a: 255 })
        },
        116 => {
            proof {
                reveal_strlit("plum");
            }
            let w = "plum";
            assert(w@ =~= seq!['p', 'l', 'u', 'm']);
            assert(vstd::string::is_ascii(w));
            (w, Color { r: 221, g: 160, b: 221, a: 255 })
        },
        117 => {
            proof {
                reveal_strlit("powderblue");
            }
            let w = "powderblue";
            assert(w@ =~= seq!['p', 'o', 'w', 'd', 'e', 'r', 'b', 'l', 'u', 'e']);
            assert(vstd::string::is_ascii(w));
            (w, Color { r: 176, g: 224, b: 230, a: 255 })
        },
        118 => {
            proof {
                reveal_strlit("purple");
            }
            let w = "purple";
            assert(w@ =~= seq!['p', 'u', 'r', 'p', 'l', 'e']);
            assert(vstd::string::is_ascii(w));
            (w, Color { r: 128, g: 0, b: 128, a: 255 })
        },
        119 => {
            proof {
                reveal_strlit("rebeccapurple");
            }
            let w = "rebeccapurple";
            assert(w@ =~= seq!['r', 'e', 'b', 'e', 'c', 'c', 'a', 'p', 'u', 'r', 'p', 'l', 'e']);
            assert(vstd::string::is_ascii(w));
            (w, Color { r: 102, g: 51, b: 153, a: 255 })
        },
        120 => {
            proof {
                reveal_strlit("red");
            }
            let w = "red";
            assert(w@ =~= seq!['r', 'e', 'd']);
            assert(vstd::string::is_ascii(w));
            (w, Color { r: 255, g: 0, b: 0, a: 255 })
        },
        121 => {
            proof {
                reveal_strlit("rosybrown");
            }
            let w = "rosybrown";
            assert(w@ =~= seq!['r', 'o', 's', 'y', 'b', 'r', 'o', 'w', 'n']);
            assert(vstd::string::is_ascii(w));
            (w, Color { r: 188, g: 143, b: 143, a: 255 })
        },
        122 => {
            proof {
                reveal_strlit("royalblue");
            }
            let w = "royalblue";
            assert(w@ =~= seq!['r', 'o', 'y', 'a', 'l', 'b', 'l', 'u', 'e']);
            assert(vstd::string::is_ascii(w));
            (w, Color { r: 65, g: 105, b: 225, a: 255 })
        },
        123 => {
            proof {
                reveal_strlit("saddlebrown");
            }
            let w = "saddlebrown";
            assert(w@ =~= seq!['s', 'a', 'd', 'd', 'l', 'e', 'b', 'r', 'o', 'w', 'n']);
            assert(vstd::string::is_ascii(w));
            (w, Color { r: 139, g: 69, b: 19, a: 255 })
        },
        124 => {
            proof {
                reveal_strlit("salmon");
            }
            let w = "salmon";
            assert(w@ =~= seq!['s', 'a', 'l', 'm', 'o', 'n']);
            assert(vstd::string::is_ascii(w));
            (w, Color { r: 250, g: 128, b: 114, a: 255 })
        },
        125 => {
            proof {
                reveal_strlit("sandybrown");
            }
            let w = "sandybrown";
            assert(w@ =~= seq!['s', 'a', 'n', 'd', 'y', 'b', 'r', 'o', 'w', 'n']);
            assert(vstd::string::is_ascii(w));
            (w, Color { r: 244, g: 164, b: 96, a: 255 })
        },
        126 => {
            proof {
                reveal_strlit("seagreen");
            }
            let w = "seagreen";
            assert(w@ =~= seq!['s', 'e', 'a', 'g', 'r', 'e', 'e', 'n']);
            assert(vstd::string::is_ascii(w));
            (w, Color { r: 46, g: 139, b: 87, a: 255 })
        },
        127 => {
            proof {
                reveal_strlit("seashell");
            }
            let w = "seashell";
            assert(w@ =~= seq!['s', 'e', 'a', 's', 'h', 'e', 'l', 'l']);
            assert(vstd::string::is_ascii(w));
            (w, Color { r: 255, g: 245, b: 238, a: 255 })
        },
        128 => {
            proof {
                reveal_strlit("sienna");
            }
            let w = "sienna";
            assert(w@ =~= seq!['s', 'i', 'e', 'n', 'n', 'a']);
            assert(vstd::string::is_ascii(w));
            (w, Color { r: 160, g: 82, b: 45, a: 255 })
        },
        129 => {
            proof {
                reveal_strlit("silver");
            }
            let w = "silver";
            assert(w@ =~= seq!['s', 'i', 'l', 'v', 'e', 'r']);
            assert(vstd::string::is_ascii(w));
            (w, Color { r: 192, g: 192, b: 192, a: 255 })
        },
        130 => {
            proof {
                reveal_strlit("skyblue");
            }
            let w = "skyblue";
            assert(w@ =~= seq!['s', 'k', 'y', 'b', 'l', 'u', 'e']);
            assert(vstd::string::is_ascii(w));
            (w, Color { r: 135, g: 206, b: 235, a: 255 })
        },
        131 => {
            proof {
                reveal_strlit("slateblue");
            }
            let w = "slateblue";
            assert(w@ =~= seq!['s', 'l', 'a', 't', 'e', 'b', 'l', 'u', 'e']);
            assert(vstd::string::is_ascii(w));
            (w, Color { r: 106, g: 90, b: 205, a: 255 })
        },
        132 => {
            proof {
                reveal_strlit("slategray");
            }
            let w = "slategray";
            assert(w@ =~= seq!['s', 'l', 'a', 't', 'e', 'g', 'r', 'a', 'y']);
            assert(vstd::string::is_ascii(w));
            (w, Color { r: 112, g: 128, b: 144, a: 255 })
        },
        133 => {
            proof {
                reveal_strlit("slategrey");
            }
            let w = "slategrey";
            assert(w@ =~= seq!['s', 'l', 'a', 't', 'e', 'g', 'r', 'e', 'y']);
            assert(vstd::string::is_ascii(w));
            (w, Color { r: 112, g: 128, b: 144, a: 255 })
        },
        134 => {
            proof {
                reveal_strlit("snow");
            }
            let w = "snow";
            assert(w@ =~= seq!['s', 'n', 'o', 'w']);
            assert(vstd::string::is_ascii(w));
            (w, Color { r: 255, g: 250, b: 250, a: 255 })
        },
        135 => {
            proof {
                reveal_strlit("springgreen");
            }
            let w = "springgreen";
            assert(w@ =~= seq!['s', 'p', 'r', 'i', 'n', 'g', 'g', 'r', 'e', 'e', 'n']);
            assert(vstd::string::is_ascii(w));
            (w, Color { r: 0, g: 255, b: 127, a: 255 })
        },
        136 => {
            proof {
                reveal_strlit("steelblue");
            }
            let w = "steelblue";
            assert(w@ =~= seq!['s', 't', 'e', 'e', 'l', 'b', 'l', 'u', 'e']);
            assert(vstd::string::is_ascii(w));
            (w, Color { r: 70, g: 130, b: 180, a: 255 })
        },
        137 => {
            proof {
                reveal_strlit("tan");
            }
            let w = "tan";
            assert(w@ =~= seq!['t', 'a', 'n']);
            assert(vstd::string::is_ascii(w));
            (w, Color { r: 210, g: 180, b: 140, a: 255 })
        },
        138 => {
            proof {
                reveal_strlit("teal");
            }
            let w = "teal";
            assert(w@ =~= seq!['t', 'e', 'a', 'l']);
            assert(vstd::string::is_ascii(w));
            (w, Color { r: 0, g: 128, b: 128, a: 255 })
        },
        139 => {
            proof {
                reveal_strlit("thistle");
            }
            let w = "thistle";
            assert(w@ =~= seq!['t', 'h', 'i', 's', 't', 'l', 'e']);
            assert(vstd::string::is_ascii(w));
            (w, Color { r: 216, g: 191, b: 216, a: 255 })
        },
        140 => {
            proof {
                reveal_strlit("tomato");
            }
            let w = "tomato";
            assert(w@ =~= seq!['t', 'o', 'm', 'a', 't', 'o']);
            assert(vstd::string::is_ascii(w));
            (w, Color { r: 255, g: 99, b: 71, a: 255 })
        },
        141 => {
            proof {
                reveal_strlit("transparent");
            }
            let w = "transparent";
            assert(w@ =~= seq!['t', 'r', 'a', 'n', 's', 'p', 'a', 'r', 'e', 'n', 't']);
            assert(vstd::string::is_ascii(w));
            (w, Color { r: 0, g: 0, b: 0, a: 0 })
        },
        142 => {
            proof {
                reveal_strlit("turquoise");
            }
            let w = "turquoise";
            assert(w@ =~= seq!['t', 'u', 'r', 'q', 'u', 'o', 'i', 's', 'e']);
            assert(vstd::string::is_ascii(w));
            (w, Color { r: 64, g: 224, b: 208, a: 255 })
        },
        143 => {
            proof {
                reveal_strlit("violet");
            }
            let w = "violet";
            assert(w@ =~= seq!['v', 'i', 'o', 'l', 'e', 't']);
            assert(vstd::string::is_ascii(w));
            (w, Color { r: 238, g: 130, b: 238, a: 255 })
        },
        144 => {
            proof {
                reveal_strlit("wheat");
            }
            let w = "wheat";
            assert(w@ =~= seq!['w', 'h', 'e', 'a', 't']);
            assert(vstd::string::is_ascii(w));
            (w, Color { r: 245, g: 222, b: 179, a: 255 })
        },
        145 => {
            proof {
                reveal_strlit("white");
            }
            let w = "white";
            assert(w@ =~= seq!['w', 'h', 'i', 't', 'e']);
            assert(vstd::string::is_ascii(w));
            (w, Color { r: 255, g: 255, b: 255, a: 255 })
        },
        146 => {
            proof {
                reveal_strlit("whitesmoke");
            }
            let w = "whitesmoke";
            assert(w@ =~= seq!['w', 'h', 'i', 't', 'e', 's', 'm', 'o', 'k', 'e']);
            assert(vstd::string::is_ascii(w));
            (w, Color { r: 245, g: 245, b: 245, a: 255 })
        },
        147 => {
            proof {
                reveal_strlit("yellow");
            }
            let w = "yellow";
            assert(w@ =~= seq!['y', 'e', 'l', 'l', 'o', 'w']);
            assert(vstd::string::is_ascii(w));
            (w, Color { r: 255, g: 255, b: 0, a: 255 })
        },
        148 => {
            proof {
                reveal_strlit("yellowgreen");
            }
            let w = "yellowgreen";
            assert(w@ =~= seq!['y', 'e', 'l', 'l', 'o', 'w', 'g', 'r', 'e', 'e', 'n']);
            assert(vstd::string::is_ascii(w));
            (w, Color { r: 154, g: 205, b: 50, a: 255 })
        },
        _ => ("", Color { r: 0, g: 0, b: 0, a: 0 }),
    }
}

/// Whether `s[lo..hi]` spells the keyword text `word` (see `spells`).
pub fn spells_exec(word: &str, s: &[u8], lo: usize, hi: usize, folded: bool) -> (r: bool)
    requires
        lo <= hi <= s@.len(),
    ensures
        r == spells(word.spec_bytes(), s@.subrange(lo as int, hi as int), folded),
{
    let ghost name = s@.subrange(lo as int, hi as int);
    let ghost text = if folded {
        lower_all(name)
    } else {
        name
    };
    let w = word.as_bytes();
    let n = w.len();
    if n != hi - lo {
        return false;
    }
    let mut j: usize = 0;
    while j < n
        invariant
            lo <= hi <= s@.len(),
            n == hi - lo,
            n == w@.len(),
            w@ == word.spec_bytes(),
            j <= n,
            name == s@.subrange(lo as int, hi as int),
            text == (if folded {
                lower_all(name)
            } else {
                name
            }),
            text.len() == n,
            forall|m: int| 0 <= m < j ==> w@[m] == text[m],
        decreases n - j,
    {
        let b = s[lo + j];
        let c = if folded {
            b | 0x20
        } else {
            b
        };
        assert(c == text[j as int]);
        if w[j] != c {
            assert(w@[j as int] != text[j as int]);
            return false;
        }
        j = j + 1;
    }
    assert(w@ =~= text);
    true
}

/// The named colour spelled by `s[lo..hi]` (see `keyword_lookup`).
pub fn lookup_keyword(s: &[u8], lo: usize, hi: usize, folded: bool) -> (r: Option<Color>)
    requires
        lo <= hi <= s@.len(),
    ensures
        r == keyword_lookup(s@.subrange(lo as int, hi as int), folded),
{
    let ghost name = s@.subrange(lo as int, hi as int);
    let mut n = KEYWORD_COUNT;
    while n > 0
        invariant
            n <= KEYWORD_COUNT,
            lo <= hi <= s@.len(),
            name == s@.subrange(lo as int, hi as int),
            last_spelled(name, folded, KEYWORD_COUNT as int) == last_spelled(name, folded, n as int),
        decreases n,
    {
        let (word, color) = keyword_at(n - 1);
        if spells_exec(word, s, lo, hi, folded) {
            proof {
                reveal(keyword_lookup);
            }
            return Some(color);
        }
        n = n - 1;
    }
    proof {
        reveal(keyword_lookup);
    }
    None
}

/// The index of the first opaque named colour with these channels.
pub fn find_opaque_name(r: u8, g: u8, b: u8) -> (res: Option<usize>)
    ensures
        match opaque_name_index(r, g, b) {
            Some(i) => res == Some(i as usize),
            None => res is None,
        },
        res matches Some(i) ==> i < KEYWORD_COUNT,
{
    let mut i: usize = 0;
    while i < KEYWORD_COUNT
        invariant
            i <= KEYWORD_COUNT,
            opaque_name_index(r, g, b) == first_opaque_from(r, g, b, i as int),
        decreases KEYWORD_COUNT - i,
    {
        let (_, c) = keyword_at(i);
        if c.a == 255 && c.r == r && c.g == g && c.b == b {
            return Some(i);
        }
        i = i + 1;
    }
    None
}

/// A name looked up without regard to case is found the same lower-cased.
pub proof fn lemma_fold_lookup(name: Seq<u8>)
    ensures
        keyword_lookup(fold_all(name), true) == keyword_lookup(name, true),
{
    reveal(keyword_lookup);
    lemma_fold_lower(name);
    lemma_fold_last_spelled(name, KEYWORD_COUNT as int);
}

proof fn lemma_fold_last_spelled(name: Seq<u8>, n: int)
    requires
        lower_all(fold_all(name)) == lower_all(name),
    ensures
        last_spelled(fold_all(name), true, n) == last_spelled(name, true, n),
    decreases n,
{
    if n > 0 {
        lemma_fold_last_spelled(name, n - 1);
    }
}

/// `a` and `b` agree before `k`, where `a` ends and `b` goes on, or `a` has the smaller byte.
pub open spec fn differs_at(a: Seq<u8>, b: Seq<u8>, k: int) -> bool {
    &&& 0 <= k <= a.len()
    &&& k <= b.len()
    &&& a.take(k) == b.take(k)
    &&& (k == a.len() && k < b.len()) || (k < a.len() && k < b.len() && a[k] < b[k])
}

/// `a` comes strictly before `b` in byte order.
pub open spec fn precedes(a: Seq<u8>, b: Seq<u8>) -> bool {
    exists|k: int| #[trigger] differs_at(a, b, k)
}

proof fn lemma_precedes_trans(a: Seq<u8>, b: Seq<u8>, c: Seq<u8>)
    requires
        precedes(a, b),
        precedes(b, c),
    ensures
        precedes(a, c),
{
    let k1 = choose|k: int| #[trigger] differs_at(a, b, k);
    let k2 = choose|k: int| #[trigger] differs_at(b, c, k);
    if k1 < k2 {
        assert(b.take(k2).take(k1) =~= b.take(k1));
        assert(c.take(k2).take(k1) =~= c.take(k1));
        if k1 < a.len() {
            assert(b[k1] == b.take(k2)[k1]);
            assert(c[k1] == c.take(k2)[k1]);
        }
        assert(differs_at(a, c, k1));
    } else if k2 < k1 {
        assert(a.take(k1).take(k2) =~= a.take(k2));
        assert(b.take(k1).take(k2) =~= b.take(k2));
        assert(a[k2] == a.take(k1)[k2]);
        assert(b[k2] == b.take(k1)[k2]);
        assert(differs_at(a, c, k2));
    } else {
        assert(differs_at(a, c, k1));
    }
}

proof fn lemma_precedes_ne(a: Seq<u8>, b: Seq<u8>)
    requires
        precedes(a, b),
    ensures
        a != b,
{
    let k = choose|k: int| #[trigger] differs_at(a, b, k);
}

/// Each name comes before the next one.
proof fn lemma_names_adjacent(i: int)
    requires
        0 <= i < KEYWORD_COUNT - 1,
    ensures
        precedes(keyword_name(i as usize), keyword_name((i + 1) as usize)),
{
    if i < 10 {
        lemma_names_adjacent_from_0(i);
    } else if i < 20 {
        lemma_names_adjacent_from_10(i);
    } else if i < 30 {
        lemma_names_adjacent_from_20(i);
    } else if i < 40 {
        lemma_names_adjacent_from_30(i);
    } else if i < 50 {
        lemma_names_adjacent_from_40(i);
    } else if i < 60 {
        lemma_names_adjacent_from_50(i);
    } else if i < 70 {
        lemma_names_adjacent_from_60(i);
    } else if i < 80 {
        lemma_names_adjacent_from_70(i);
    } else if i < 90 {
        lemma_names_adjacent_from_80(i);
    } else if i < 100 {
        lemma_names_adjacent_from_90(i);
    } else if i < 110 {
        lemma_names_adjacent_from_100(i);
    } else if i < 120 {
        lemma_names_adjacent_from_110(i);
    } else if i < 130 {
        lemma_names_adjacent_from_120(i);
    } else if i < 140 {
        lemma_names_adjacent_from_130(i);
    } else if i < 148 {
        lemma_names_adjacent_from_140(i);
    }
}

proof fn lemma_names_adjacent_from_0(i: int)
    requires
        0 <= i < 10,
    ensures
        precedes(keyword_name(i as usize), keyword_name((i + 1) as usize)),
{
    if i == 0 {
        let (a, b) = (keyword_name(0), keyword_name(1));
        assert(a.take(1) =~= b.take(1));
        assert(differs_at(a, b, 1));
    } else if i == 1 {
        let (a, b) = (keyword_name(1), keyword_name(2));
        assert(a.take(1) =~= b.take(1));
        assert(differs_at(a, b, 1));
    } else if i == 2 {
        let (a, b) = (keyword_name(2), keyword_name(3));
        assert(a.take(4) =~= b.take(4));
        assert(differs_at(a, b, 4));
    } else if i == 3 {
        let (a, b) = (keyword_name(3), keyword_name(4));
        assert(a.take(1) =~= b.take(1));
        assert(differs_at(a, b, 1));
    } else if i == 4 {
        let (a, b) = (keyword_name(4), keyword_name(5));
        assert(a.take(0) =~= b.take(0));
        assert(differs_at(a, b, 0));
    } else if i == 5 {
        let (a, b) = (keyword_name(5), keyword_name(6));
        assert(a.take(1) =~= b.take(1));
        assert(differs_at(a, b, 1));
    } else if i == 6 {
        let (a, b) = (keyword_name(6), keyword_name(7));
        assert(a.take(1) =~= b.take(1));
        assert(differs_at(a, b, 1));
    } else if i == 7 {
        let (a, b) = (keyword_name(7), keyword_name(8));
        assert(a.take(3) =~= b.take(3));
        assert(differs_at(a, b, 3));
    } else if i == 8 {
        let (a, b) = (keyword_name(8), keyword_name(9));
        assert(a.take(2) =~= b.take(2));
        assert(differs_at(a, b, 2));
    } else if i == 9 {
        let (a, b) = (keyword_name(9), keyword_name(10));
        assert(a.take(4) =~= b.take(4));
        assert(differs_at(a, b, 4));
    }
}

proof fn lemma_names_adjacent_from_10(i: int)
    requires
        10 <= i < 20,
    ensures
        precedes(keyword_name(i as usize), keyword_name((i + 1) as usize)),
{
    if i == 10 {
        let (a, b) = (keyword_name(10), keyword_name(11));
        assert(a.take(1) =~= b.take(1));
        assert(differs_at(a, b, 1));
    } else if i == 11 {
        let (a, b) = (keyword_name(11), keyword_name(12));
        assert(a.take(1) =~= b.take(1));
        assert(differs_at(a, b, 1));
    } else if i == 12 {
        let (a, b) = (keyword_name(12), keyword_name(13));
        assert(a.take(0) =~= b.take(0));
        assert(differs_at(a, b, 0));
    } else if i == 13 {
        let (a, b) = (keyword_name(13), keyword_name(14));
        assert(a.take(1) =~= b.take(1));
        assert(differs_at(a, b, 1));
    } else if i == 14 {
        let (a, b) = (keyword_name(14), keyword_name(15));
        assert(a.take(2) =~= b.take(2));
        assert(differs_at(a, b, 2));
    } else if i == 15 {
        let (a, b) = (keyword_name(15), keyword_name(16));
        assert(a.take(1) =~= b.take(1));
        assert(differs_at(a, b, 1));
    } else if i == 16 {
        let (a, b) = (keyword_name(16), keyword_name(17));
        assert(a.take(3) =~= b.take(3));
        assert(differs_at(a, b, 3));
    } else if i == 17 {
        let (a, b) = (keyword_name(17), keyword_name(18));
        assert(a.take(4) =~= b.take(4));
        assert(differs_at(a, b, 4));
    } else if i == 18 {
        let (a, b) = (keyword_name(18), keyword_name(19));
        assert(a.take(1) =~= b.take(1));
        assert(differs_at(a, b, 1));
    } else if i == 19 {
        let (a, b) = (keyword_name(19), keyword_name(20));
        assert(a.take(1) =~= b.take(1));
        assert(differs_at(a, b, 1));
    }
}

proof fn lemma_names_adjacent_from_20(i: int)
    requires
        20 <= i < 30,
    ensures
        precedes(keyword_name(i as usize), keyword_name((i + 1) as usize)),
{
    if i == 20 {
        let (a, b) = (keyword_name(20), keyword_name(21));
        assert(a.take(0) =~= b.take(0));
        assert(differs_at(a, b, 0));
    } else if i == 21 {
        let (a, b) = (keyword_name(21), keyword_name(22));
        assert(a.take(4) =~= b.take(4));
        assert(differs_at(a, b, 4));
    } else if i == 22 {
        let (a, b) = (keyword_name(22), keyword_name(23));
        assert(a.take(4) =~= b.take(4));
        assert(differs_at(a, b, 4));
    } else if i == 23 {
        let (a, b) = (keyword_name(23), keyword_name(24));
        assert(a.take(5) =~= b.take(5));
        assert(differs_at(a, b, 5));
    } else if i == 24 {
        let (a, b) = (keyword_name(24), keyword_name(25));
        assert(a.take(6) =~= b.take(6));
        assert(differs_at(a, b, 6));
    } else if i == 25 {
        let (a, b) = (keyword_name(25), keyword_name(26));
        assert(a.take(7) =~= b.take(7));
        assert(differs_at(a, b, 7));
    } else if i == 26 {
        let (a, b) = (keyword_name(26), keyword_name(27));
        assert(a.take(4) =~= b.take(4));
        assert(differs_at(a, b, 4));
    } else if i == 27 {
        let (a, b) = (keyword_name(27), keyword_name(28));
        assert(a.take(4) =~= b.take(4));
        assert(differs_at(a, b, 4));
    } else if i == 28 {
        let (a, b) = (keyword_name(28), keyword_name(29));
        assert(a.take(4) =~= b.take(4));
        assert(differs_at(a, b, 4));
    } else if i == 29 {
        let (a, b) = (keyword_name(29), keyword_name(30));
        assert(a.take(5) =~= b.take(5));
        assert(differs_at(a, b, 5));
    }
}

proof fn lemma_names_adjacent_from_30(i: int)
    requires
        30 <= i < 40,
    ensures
        precedes(keyword_name(i as usize), keyword_name((i + 1) as usize)),
{
    if i == 30 {
        let (a, b) = (keyword_name(30), keyword_name(31));
        assert(a.take(6) =~= b.take(6));
        assert(differs_at(a, b, 6));
    } else if i == 31 {
        let (a, b) = (keyword_name(31), keyword_name(32));
        assert(a.take(4) =~= b.take(4));
        assert(differs_at(a, b, 4));
    } else if i == 32 {
        let (a, b) = (keyword_name(32), keyword_name(33));
        assert(a.take(4) =~= b.take(4));
        assert(differs_at(a, b, 4));
    } else if i == 33 {
        let (a, b) = (keyword_name(33), keyword_name(34));
        assert(a.take(5) =~= b.take(5));
        assert(differs_at(a, b, 5));
    } else if i == 34 {
        let (a, b) = (keyword_name(34), keyword_name(35));
        assert(a.take(5) =~= b.take(5));
        assert(differs_at(a, b, 5));
    } else if i == 35 {
        let (a, b) = (keyword_name(35), keyword_name(36));
        assert(a.take(9) =~= b.take(9));
        assert(differs_at(a, b, 9));
    } else if i == 36 {
        let (a, b) = (keyword_name(36), keyword_name(37));
        assert(a.take(11) =~= b.take(11));
        assert(differs_at(a, b, 11));
    } else if i == 37 {
        let (a, b) = (keyword_name(37), keyword_name(38));
        assert(a.take(4) =~= b.take(4));
        assert(differs_at(a, b, 4));
    } else if i == 38 {
        let (a, b) = (keyword_name(38), keyword_name(39));
        assert(a.take(4) =~= b.take(4));
        assert(differs_at(a, b, 4));
    } else if i == 39 {
        let (a, b) = (keyword_name(39), keyword_name(40));
        assert(a.take(1) =~= b.take(1));
        assert(differs_at(a, b, 1));
    }
}

proof fn lemma_names_adjacent_from_40(i: int)
    requires
        40 <= i < 50,
    ensures
        precedes(keyword_name(i as usize), keyword_name((i + 1) as usize)),
{
    if i == 40 {
        let (a, b) = (keyword_name(40), keyword_name(41));
        assert(a.take(4) =~= b.take(4));
        assert(differs_at(a, b, 4));
    } else if i == 41 {
        let (a, b) = (keyword_name(41), keyword_name(42));
        assert(a.take(1) =~= b.take(1));
        assert(differs_at(a, b, 1));
    } else if i == 42 {
        let (a, b) = (keyword_name(42), keyword_name(43));
        assert(a.take(5) =~= b.take(5));
        assert(differs_at(a, b, 5));
    } else if i == 43 {
        let (a, b) = (keyword_name(43), keyword_name(44));
        assert(a.take(1) =~= b.take(1));
        assert(differs_at(a, b, 1));
    } else if i == 44 {
        let (a, b) = (keyword_name(44), keyword_name(45));
        assert(a.take(0) =~= b.take(0));
        assert(differs_at(a, b, 0));
    } else if i == 45 {
        let (a, b) = (keyword_name(45), keyword_name(46));
        assert(a.take(1) =~= b.take(1));
        assert(differs_at(a, b, 1));
    } else if i == 46 {
        let (a, b) = (keyword_name(46), keyword_name(47));
        assert(a.take(1) =~= b.take(1));
        assert(differs_at(a, b, 1));
    } else if i == 47 {
        let (a, b) = (keyword_name(47), keyword_name(48));
        assert(a.take(1) =~= b.take(1));
        assert(differs_at(a, b, 1));
    } else if i == 48 {
        let (a, b) = (keyword_name(48), keyword_name(49));
        assert(a.take(0) =~= b.take(0));
        assert(differs_at(a, b, 0));
    } else if i == 49 {
        let (a, b) = (keyword_name(49), keyword_name(50));
        assert(a.take(1) =~= b.take(1));
        assert(differs_at(a, b, 1));
    }
}

proof fn lemma_names_adjacent_from_50(i: int)
    requires
        50 <= i < 60,
    ensures
        precedes(keyword_name(i as usize), keyword_name((i + 1) as usize)),
{
    if i == 50 {
        let (a, b) = (keyword_name(50), keyword_name(51));
        assert(a.take(1) =~= b.take(1));
        assert(differs_at(a, b, 1));
    } else if i == 51 {
        let (a, b) = (keyword_name(51), keyword_name(52));
        assert(a.take(4) =~= b.take(4));
        assert(differs_at(a, b, 4));
    } else if i == 52 {
        let (a, b) = (keyword_name(52), keyword_name(53));
        assert(a.take(1) =~= b.take(1));
        assert(differs_at(a, b, 1));
    } else if i == 53 {
        let (a, b) = (keyword_name(53), keyword_name(54));
        assert(a.take(2) =~= b.take(2));
        assert(differs_at(a, b, 2));
    } else if i == 54 {
        let (a, b) = (keyword_name(54), keyword_name(55));
        assert(a.take(5) =~= b.take(5));
        assert(differs_at(a, b, 5));
    } else if i == 55 {
        let (a, b) = (keyword_name(55), keyword_name(56));
        assert(a.take(3) =~= b.take(3));
        assert(differs_at(a, b, 3));
    } else if i == 56 {
        let (a, b) = (keyword_name(56), keyword_name(57));
        assert(a.take(0) =~= b.take(0));
        assert(differs_at(a, b, 0));
    } else if i == 57 {
        let (a, b) = (keyword_name(57), keyword_name(58));
        assert(a.take(2) =~= b.take(2));
        assert(differs_at(a, b, 2));
    } else if i == 58 {
        let (a, b) = (keyword_name(58), keyword_name(59));
        assert(a.take(0) =~= b.take(0));
        assert(differs_at(a, b, 0));
    } else if i == 59 {
        let (a, b) = (keyword_name(59), keyword_name(60));
        assert(a.take(4) =~= b.take(4));
        assert(differs_at(a, b, 4));
    }
}

proof fn lemma_names_adjacent_from_60(i: int)
    requires
        60 <= i < 70,
    ensures
        precedes(keyword_name(i as usize), keyword_name((i + 1) as usize)),
{
    if i == 60 {
        let (a, b) = (keyword_name(60), keyword_name(61));
        assert(a.take(1) =~= b.take(1));
        assert(differs_at(a, b, 1));
    } else if i == 61 {
        let (a, b) = (keyword_name(61), keyword_name(62));
        assert(a.take(0) =~= b.take(0));
        assert(differs_at(a, b, 0));
    } else if i == 62 {
        let (a, b) = (keyword_name(62), keyword_name(63));
        assert(a.take(0) =~= b.take(0));
        assert(differs_at(a, b, 0));
    } else if i == 63 {
        let (a, b) = (keyword_name(63), keyword_name(64));
        assert(a.take(8) =~= b.take(8));
        assert(differs_at(a, b, 8));
    } else if i == 64 {
        let (a, b) = (keyword_name(64), keyword_name(65));
        assert(a.take(2) =~= b.take(2));
        assert(differs_at(a, b, 2));
    } else if i == 65 {
        let (a, b) = (keyword_name(65), keyword_name(66));
        assert(a.take(1) =~= b.take(1));
        assert(differs_at(a, b, 1));
    } else if i == 66 {
        let (a, b) = (keyword_name(66), keyword_name(67));
        assert(a.take(1) =~= b.take(1));
        assert(differs_at(a, b, 1));
    } else if i == 67 {
        let (a, b) = (keyword_name(67), keyword_name(68));
        assert(a.take(5) =~= b.take(5));
        assert(differs_at(a, b, 5));
    } else if i == 68 {
        let (a, b) = (keyword_name(68), keyword_name(69));
        assert(a.take(6) =~= b.take(6));
        assert(differs_at(a, b, 6));
    } else if i == 69 {
        let (a, b) = (keyword_name(69), keyword_name(70));
        assert(a.take(5) =~= b.take(5));
        assert(differs_at(a, b, 5));
    }
}

proof fn lemma_names_adjacent_from_70(i: int)
    requires
        70 <= i < 80,
    ensures
        precedes(keyword_name(i as usize), keyword_name((i + 1) as usize)),
{
    if i == 70 {
        let (a, b) = (keyword_name(70), keyword_name(71));
        assert(a.take(6) =~= b.take(6));
        assert(differs_at(a, b, 6));
    } else if i == 71 {
        let (a, b) = (keyword_name(71), keyword_name(72));
        assert(a.take(7) =~= b.take(7));
        assert(differs_at(a, b, 7));
    } else if i == 72 {
        let (a, b) = (keyword_name(72), keyword_name(73));
        assert(a.take(8) =~= b.take(8));
        assert(differs_at(a, b, 8));
    } else if i == 73 {
        let (a, b) = (keyword_name(73), keyword_name(74));
        assert(a.take(5) =~= b.take(5));
        assert(differs_at(a, b, 5));
    } else if i == 74 {
        let (a, b) = (keyword_name(74), keyword_name(75));
        assert(a.take(5) =~= b.take(5));
        assert(differs_at(a, b, 5));
    } else if i == 75 {
        let (a, b) = (keyword_name(75), keyword_name(76));
        assert(a.take(6) =~= b.take(6));
        assert(differs_at(a, b, 6));
    } else if i == 76 {
        let (a, b) = (keyword_name(76), keyword_name(77));
        assert(a.take(6) =~= b.take(6));
        assert(differs_at(a, b, 6));
    } else if i == 77 {
        let (a, b) = (keyword_name(77), keyword_name(78));
        assert(a.take(6) =~= b.take(6));
        assert(differs_at(a, b, 6));
    } else if i == 78 {
        let (a, b) = (keyword_name(78), keyword_name(79));
        assert(a.take(12) =~= b.take(12));
        assert(differs_at(a, b, 12));
    } else if i == 79 {
        let (a, b) = (keyword_name(79), keyword_name(80));
        assert(a.take(6) =~= b.take(6));
        assert(differs_at(a, b, 6));
    }
}

proof fn lemma_names_adjacent_from_80(i: int)
    requires
        80 <= i < 90,
    ensures
        precedes(keyword_name(i as usize), keyword_name((i + 1) as usize)),
{
    if i == 80 {
        let (a, b) = (keyword_name(80), keyword_name(81));
        assert(a.take(5) =~= b.take(5));
        assert(differs_at(a, b, 5));
    } else if i == 81 {
        let (a, b) = (keyword_name(81), keyword_name(82));
        assert(a.take(2) =~= b.take(2));
        assert(differs_at(a, b, 2));
    } else if i == 82 {
        let (a, b) = (keyword_name(82), keyword_name(83));
        assert(a.take(4) =~= b.take(4));
        assert(differs_at(a, b, 4));
    } else if i == 83 {
        let (a, b) = (keyword_name(83), keyword_name(84));
        assert(a.take(2) =~= b.take(2));
        assert(differs_at(a, b, 2));
    } else if i == 84 {
        let (a, b) = (keyword_name(84), keyword_name(85));
        assert(a.take(0) =~= b.take(0));
        assert(differs_at(a, b, 0));
    } else if i == 85 {
        let (a, b) = (keyword_name(85), keyword_name(86));
        assert(a.take(2) =~= b.take(2));
        assert(differs_at(a, b, 2));
    } else if i == 86 {
        let (a, b) = (keyword_name(86), keyword_name(87));
        assert(a.take(1) =~= b.take(1));
        assert(differs_at(a, b, 1));
    } else if i == 87 {
        let (a, b) = (keyword_name(87), keyword_name(88));
        assert(a.take(6) =~= b.take(6));
        assert(differs_at(a, b, 6));
    } else if i == 88 {
        let (a, b) = (keyword_name(88), keyword_name(89));
        assert(a.take(6) =~= b.take(6));
        assert(differs_at(a, b, 6));
    } else if i == 89 {
        let (a, b) = (keyword_name(89), keyword_name(90));
        assert(a.take(6) =~= b.take(6));
        assert(differs_at(a, b, 6));
    }
}

proof fn lemma_names_adjacent_from_90(i: int)
    requires
        90 <= i < 100,
    ensures
        precedes(keyword_name(i as usize), keyword_name((i + 1) as usize)),
{
    if i == 90 {
        let (a, b) = (keyword_name(90), keyword_name(91));
        assert(a.take(6) =~= b.take(6));
        assert(differs_at(a, b, 6));
    } else if i == 91 {
        let (a, b) = (keyword_name(91), keyword_name(92));
        assert(a.take(7) =~= b.take(7));
        assert(differs_at(a, b, 7));
    } else if i == 92 {
        let (a, b) = (keyword_name(92), keyword_name(93));
        assert(a.take(7) =~= b.take(7));
        assert(differs_at(a, b, 7));
    } else if i == 93 {
        let (a, b) = (keyword_name(93), keyword_name(94));
        assert(a.take(6) =~= b.take(6));
        assert(differs_at(a, b, 6));
    } else if i == 94 {
        let (a, b) = (keyword_name(94), keyword_name(95));
        assert(a.take(6) =~= b.take(6));
        assert(differs_at(a, b, 6));
    } else if i == 95 {
        let (a, b) = (keyword_name(95), keyword_name(96));
        assert(a.take(1) =~= b.take(1));
        assert(differs_at(a, b, 1));
    } else if i == 96 {
        let (a, b) = (keyword_name(96), keyword_name(97));
        assert(a.take(2) =~= b.take(2));
        assert(differs_at(a, b, 2));
    } else if i == 97 {
        let (a, b) = (keyword_name(97), keyword_name(98));
        assert(a.take(2) =~= b.take(2));
        assert(differs_at(a, b, 2));
    } else if i == 98 {
        let (a, b) = (keyword_name(98), keyword_name(99));
        assert(a.take(1) =~= b.take(1));
        assert(differs_at(a, b, 1));
    } else if i == 99 {
        let (a, b) = (keyword_name(99), keyword_name(100));
        assert(a.take(0) =~= b.take(0));
        assert(differs_at(a, b, 0));
    }
}

proof fn lemma_names_adjacent_from_100(i: int)
    requires
        100 <= i < 110,
    ensures
        precedes(keyword_name(i as usize), keyword_name((i + 1) as usize)),
{
    if i == 100 {
        let (a, b) = (keyword_name(100), keyword_name(101));
        assert(a.take(3) =~= b.take(3));
        assert(differs_at(a, b, 3));
    } else if i == 101 {
        let (a, b) = (keyword_name(101), keyword_name(102));
        assert(a.take(0) =~= b.take(0));
        assert(differs_at(a, b, 0));
    } else if i == 102 {
        let (a, b) = (keyword_name(102), keyword_name(103));
        assert(a.take(2) =~= b.take(2));
        assert(differs_at(a, b, 2));
    } else if i == 103 {
        let (a, b) = (keyword_name(103), keyword_name(104));
        assert(a.take(5) =~= b.take(5));
        assert(differs_at(a, b, 5));
    } else if i == 104 {
        let (a, b) = (keyword_name(104), keyword_name(105));
        assert(a.take(1) =~= b.take(1));
        assert(differs_at(a, b, 1));
    } else if i == 105 {
        let (a, b) = (keyword_name(105), keyword_name(106));
        assert(a.take(6) =~= b.take(6));
        assert(differs_at(a, b, 6));
    } else if i == 106 {
        let (a, b) = (keyword_name(106), keyword_name(107));
        assert(a.take(2) =~= b.take(2));
        assert(differs_at(a, b, 2));
    } else if i == 107 {
        let (a, b) = (keyword_name(107), keyword_name(108));
        assert(a.take(0) =~= b.take(0));
        assert(differs_at(a, b, 0));
    } else if i == 108 {
        let (a, b) = (keyword_name(108), keyword_name(109));
        assert(a.take(5) =~= b.take(5));
        assert(differs_at(a, b, 5));
    } else if i == 109 {
        let (a, b) = (keyword_name(109), keyword_name(110));
        assert(a.take(4) =~= b.take(4));
        assert(differs_at(a, b, 4));
    }
}

proof fn lemma_names_adjacent_from_110(i: int)
    requires
        110 <= i < 120,
    ensures
        precedes(keyword_name(i as usize), keyword_name((i + 1) as usize)),
{
    if i == 110 {
        let (a, b) = (keyword_name(110), keyword_name(111));
        assert(a.take(4) =~= b.take(4));
        assert(differs_at(a, b, 4));
    } else if i == 111 {
        let (a, b) = (keyword_name(111), keyword_name(112));
        assert(a.take(2) =~= b.take(2));
        assert(differs_at(a, b, 2));
    } else if i == 112 {
        let (a, b) = (keyword_name(112), keyword_name(113));
        assert(a.take(1) =~= b.take(1));
        assert(differs_at(a, b, 1));
    } else if i == 113 {
        let (a, b) = (keyword_name(113), keyword_name(114));
        assert(a.take(2) =~= b.take(2));
        assert(differs_at(a, b, 2));
    } else if i == 114 {
        let (a, b) = (keyword_name(114), keyword_name(115));
        assert(a.take(1) =~= b.take(1));
        assert(differs_at(a, b, 1));
    } else if i == 115 {
        let (a, b) = (keyword_name(115), keyword_name(116));
        assert(a.take(1) =~= b.take(1));
        assert(differs_at(a, b, 1));
    } else if i == 116 {
        let (a, b) = (keyword_name(116), keyword_name(117));
        assert(a.take(1) =~= b.take(1));
        assert(differs_at(a, b, 1));
    } else if i == 117 {
        let (a, b) = (keyword_name(117), keyword_name(118));
        assert(a.take(1) =~= b.take(1));
        assert(differs_at(a, b, 1));
    } else if i == 118 {
        let (a, b) = (keyword_name(118), keyword_name(119));
        assert(a.take(0) =~= b.take(0));
        assert(differs_at(a, b, 0));
    } else if i == 119 {
        let (a, b) = (keyword_name(119), keyword_name(120));
        assert(a.take(2) =~= b.take(2));
        assert(differs_at(a, b, 2));
    }
}

proof fn lemma_names_adjacent_from_120(i: int)
    requires
        120 <= i < 130,
    ensures
        precedes(keyword_name(i as usize), keyword_name((i + 1) as usize)),
{
    if i == 120 {
        let (a, b) = (keyword_name(120), keyword_name(121));
        assert(a.take(1) =~= b.take(1));
        assert(differs_at(a, b, 1));
    } else if i == 121 {
        let (a, b) = (keyword_name(121), keyword_name(122));
        assert(a.take(2) =~= b.take(2));
        assert(differs_at(a, b, 2));
    } else if i == 122 {
        let (a, b) = (keyword_name(122), keyword_name(123));
        assert(a.take(0) =~= b.take(0));
        assert(differs_at(a, b, 0));
    } else if i == 123 {
        let (a, b) = (keyword_name(123), keyword_name(124));
        assert(a.take(2) =~= b.take(2));
        assert(differs_at(a, b, 2));
    } else if i == 124 {
        let (a, b) = (keyword_name(124), keyword_name(125));
        assert(a.take(2) =~= b.take(2));
        assert(differs_at(a, b, 2));
    } else if i == 125 {
        let (a, b) = (keyword_name(125), keyword_name(126));
        assert(a.take(1) =~= b.take(1));
        assert(differs_at(a, b, 1));
    } else if i == 126 {
        let (a, b) = (keyword_name(126), keyword_name(127));
        assert(a.take(3) =~= b.take(3));
        assert(differs_at(a, b, 3));
    } else if i == 127 {
        let (a, b) = (keyword_name(127), keyword_name(128));
        assert(a.take(1) =~= b.take(1));
        assert(differs_at(a, b, 1));
    } else if i == 128 {
        let (a, b) = (keyword_name(128), keyword_name(129));
        assert(a.take(2) =~= b.take(2));
        assert(differs_at(a, b, 2));
    } else if i == 129 {
        let (a, b) = (keyword_name(129), keyword_name(130));
        assert(a.take(1) =~= b.take(1));
        assert(differs_at(a, b, 1));
    }
}

proof fn lemma_names_adjacent_from_130(i: int)
    requires
        130 <= i < 140,
    ensures
        precedes(keyword_name(i as usize), keyword_name((i + 1) as usize)),
{
    if i == 130 {
        let (a, b) = (keyword_name(130), keyword_name(131));
        assert(a.take(1) =~= b.take(1));
        assert(differs_at(a, b, 1));
    } else if i == 131 {
        let (a, b) = (keyword_name(131), keyword_name(132));
        assert(a.take(5) =~= b.take(5));
        assert(differs_at(a, b, 5));
    } else if i == 132 {
        let (a, b) = (keyword_name(132), keyword_name(133));
        assert(a.take(7) =~= b.take(7));
        assert(differs_at(a, b, 7));
    } else if i == 133 {
        let (a, b) = (keyword_name(133), keyword_name(134));
        assert(a.take(1) =~= b.take(1));
        assert(differs_at(a, b, 1));
    } else if i == 134 {
        let (a, b) = (keyword_name(134), keyword_name(135));
        assert(a.take(1) =~= b.take(1));
        assert(differs_at(a, b, 1));
    } else if i == 135 {
        let (a, b) = (keyword_name(135), keyword_name(136));
        assert(a.take(1) =~= b.take(1));
        assert(differs_at(a, b, 1));
    } else if i == 136 {
        let (a, b) = (keyword_name(136), keyword_name(137));
        assert(a.take(0) =~= b.take(0));
        assert(differs_at(a, b, 0));
    } else if i == 137 {
        let (a, b) = (keyword_name(137), keyword_name(138));
        assert(a.take(1) =~= b.take(1));
        assert(differs_at(a, b, 1));
    } else if i == 138 {
        let (a, b) = (keyword_name(138), keyword_name(139));
        assert(a.take(1) =~= b.take(1));
        assert(differs_at(a, b, 1));
    } else if i == 139 {
        let (a, b) = (keyword_name(139), keyword_name(140));
        assert(a.take(1) =~= b.take(1));
        assert(differs_at(a, b, 1));
    }
}

proof fn lemma_names_adjacent_from_140(i: int)
    requires
        140 <= i < 148,
    ensures
        precedes(keyword_name(i as usize), keyword_name((i + 1) as usize)),
{
    if i == 140 {
        let (a, b) = (keyword_name(140), keyword_name(141));
        assert(a.take(1) =~= b.take(1));
        assert(differs_at(a, b, 1));
    } else if i == 141 {
        let (a, b) = (keyword_name(141), keyword_name(142));
        assert(a.take(1) =~= b.take(1));
        assert(differs_at(a, b, 1));
    } else if i == 142 {
        let (a, b) = (keyword_name(142), keyword_name(143));
        assert(a.take(0) =~= b.take(0));
        assert(differs_at(a, b, 0));
    } else if i == 143 {
        let (a, b) = (keyword_name(143), keyword_name(144));
        assert(a.take(0) =~= b.take(0));
        assert(differs_at(a, b, 0));
    } else if i == 144 {
        let (a, b) = (keyword_name(144), keyword_name(145));
        assert(a.take(2) =~= b.take(2));
        assert(differs_at(a, b, 2));
    } else if i == 145 {
        let (a, b) = (keyword_name(145), keyword_name(146));
        assert(a.take(5) =~= b.take(5));
        assert(differs_at(a, b, 5));
    } else if i == 146 {
        let (a, b) = (keyword_name(146), keyword_name(147));
        assert(a.take(0) =~= b.take(0));
        assert(differs_at(a, b, 0));
    } else if i == 147 {
        let (a, b) = (keyword_name(147), keyword_name(148));
        assert(a.take(6) =~= b.take(6));
        assert(differs_at(a, b, 6));
    }
}

/// The names are in strictly increasing byte order.
proof fn lemma_names_sorted(i: int, j: int)
    requires
        0 <= i < j < KEYWORD_COUNT,
    ensures
        precedes(keyword_name(i as usize), keyword_name(j as usize)),
    decreases j - i,
{
    lemma_names_adjacent(j - 1);
    if i < j - 1 {
        lemma_names_sorted(i, j - 1);
        lemma_precedes_trans(
            keyword_name(i as usize),
            keyword_name((j - 1) as usize),
            keyword_name(j as usize),
        );
    }
}

/// No two named colours share a name.
pub proof fn lemma_names_distinct(i: int, j: int)
    requires
        0 <= i < KEYWORD_COUNT,
        0 <= j < KEYWORD_COUNT,
        i != j,
    ensures
        keyword_name(i as usize) != keyword_name(j as usize),
{
    if i < j {
        lemma_names_sorted(i, j);
        lemma_precedes_ne(keyword_name(i as usize), keyword_name(j as usize));
    } else {
        lemma_names_sorted(j, i);
        lemma_precedes_ne(keyword_name(j as usize), keyword_name(i as usize));
    }
}

/// `s` is a word of lower-case ASCII letters.
pub open spec fn lower_word(s: Seq<u8>) -> bool {
    s.len() > 0 && forall|k: int| 0 <= k < s.len() ==> 97 <= #[trigger] s[k] <= 122
}

/// The names are written in lower-case letters.
pub proof fn lemma_names_lower(i: int)
    requires
        0 <= i < KEYWORD_COUNT,
    ensures
        lower_word(keyword_name(i as usize)),
{
    if i < 15 {
        lemma_names_lower_from_0(i);
    } else if i < 30 {
        lemma_names_lower_from_15(i);
    } else if i < 45 {
        lemma_names_lower_from_30(i);
    } else if i < 60 {
        lemma_names_lower_from_45(i);
    } else if i < 75 {
        lemma_names_lower_from_60(i);
    } else if i < 90 {
        lemma_names_lower_from_75(i);
    } else if i < 105 {
        lemma_names_lower_from_90(i);
    } else if i < 120 {
        lemma_names_lower_from_105(i);
    } else if i < 135 {
        lemma_names_lower_from_120(i);
    } else if i < 149 {
        lemma_names_lower_from_135(i);
    }
}

proof fn lemma_names_lower_from_0(i: int)
    requires
        0 <= i < 15,
    ensures
        lower_word(keyword_name(i as usize)),
{
    if i == 0 {
        assert(lower_word(keyword_name(0)));
    } else if i == 1 {
        assert(lower_word(keyword_name(1)));
    } else if i == 2 {
        assert(lower_word(keyword_name(2)));
    } else if i == 3 {
        assert(lower_word(keyword_name(3)));
    } else if i == 4 {
        assert(lower_word(keyword_name(4)));
    } else if i == 5 {
        assert(lower_word(keyword_name(5)));
    } else if i == 6 {
        assert(lower_word(keyword_name(6)));
    } else if i == 7 {
        assert(lower_word(keyword_name(7)));
    } else if i == 8 {
        assert(lower_word(keyword_name(8)));
    } else if i == 9 {
        assert(lower_word(keyword_name(9)));
    } else if i == 10 {
        assert(lower_word(keyword_name(10)));
    } else if i == 11 {
        assert(lower_word(keyword_name(11)));
    } else if i == 12 {
        assert(lower_word(keyword_name(12)));
    } else if i == 13 {
        assert(lower_word(keyword_name(13)));
    } else if i == 14 {
        assert(lower_word(keyword_name(14)));
    }
}

proof fn lemma_names_lower_from_15(i: int)
    requires
        15 <= i < 30,
    ensures
        lower_word(keyword_name(i as usize)),
{
    if i == 15 {
        assert(lower_word(keyword_name(15)));
    } else if i == 16 {
        assert(lower_word(keyword_name(16)));
    } else if i == 17 {
        assert(lower_word(keyword_name(17)));
    } else if i == 18 {
        assert(lower_word(keyword_name(18)));
    } else if i == 19 {
        assert(lower_word(keyword_name(19)));
    } else if i == 20 {
        assert(lower_word(keyword_name(20)));
    } else if i == 21 {
        assert(lower_word(keyword_name(21)));
    } else if i == 22 {
        assert(lower_word(keyword_name(22)));
    } else if i == 23 {
        assert(lower_word(keyword_name(23)));
    } else if i == 24 {
        assert(lower_word(keyword_name(24)));
    } else if i == 25 {
        assert(lower_word(keyword_name(25)));
    } else if i == 26 {
        assert(lower_word(keyword_name(26)));
    } else if i == 27 {
        assert(lower_word(keyword_name(27)));
    } else if i == 28 {
        assert(lower_word(keyword_name(28)));
    } else if i == 29 {
        assert(lower_word(keyword_name(29)));
    }
}

proof fn lemma_names_lower_from_30(i: int)
    requires
        30 <= i < 45,
    ensures
        lower_word(keyword_name(i as usize)),
{
    if i == 30 {
        assert(lower_word(keyword_name(30)));
    } else if i == 31 {
        assert(lower_word(keyword_name(31)));
    } else if i == 32 {
        assert(lower_word(keyword_name(32)));
    } else if i == 33 {
        assert(lower_word(keyword_name(33)));
    } else if i == 34 {
        assert(lower_word(keyword_name(34)));
    } else if i == 35 {
        assert(lower_word(keyword_name(35)));
    } else if i == 36 {
        assert(lower_word(keyword_name(36)));
    } else if i == 37 {
        assert(lower_word(keyword_name(37)));
    } else if i == 38 {
        assert(lower_word(keyword_name(38)));
    } else if i == 39 {
        assert(lower_word(keyword_name(39)));
    } else if i == 40 {
        assert(lower_word(keyword_name(40)));
    } else if i == 41 {
        assert(lower_word(keyword_name(41)));
    } else if i == 42 {
        assert(lower_word(keyword_name(42)));
    } else if i == 43 {
        assert(lower_word(keyword_name(43)));
    } else if i == 44 {
        assert(lower_word(keyword_name(44)));
    }
}

proof fn lemma_names_lower_from_45(i: int)
    requires
        45 <= i < 60,
    ensures
        lower_word(keyword_name(i as usize)),
{
    if i == 45 {
        assert(lower_word(keyword_name(45)));
    } else if i == 46 {
        assert(lower_word(keyword_name(46)));
    } else if i == 47 {
        assert(lower_word(keyword_name(47)));
    } else if i == 48 {
        assert(lower_word(keyword_name(48)));
    } else if i == 49 {
        assert(lower_word(keyword_name(49)));
    } else if i == 50 {
        assert(lower_word(keyword_name(50)));
    } else if i == 51 {
        assert(lower_word(keyword_name(51)));
    } else if i == 52 {
        assert(lower_word(keyword_name(52)));
    } else if i == 53 {
        assert(lower_word(keyword_name(53)));
    } else if i == 54 {
        assert(lower_word(keyword_name(54)));
    } else if i == 55 {
        assert(lower_word(keyword_name(55)));
    } else if i == 56 {
        assert(lower_word(keyword_name(56)));
    } else if i == 57 {
        assert(lower_word(keyword_name(57)));
    } else if i == 58 {
        assert(lower_word(keyword_name(58)));
    } else if i == 59 {
        assert(lower_word(keyword_name(59)));
    }
}

proof fn lemma_names_lower_from_60(i: int)
    requires
        60 <= i < 75,
    ensures
        lower_word(keyword_name(i as usize)),
{
    if i == 60 {
        assert(lower_word(keyword_name(60)));
    } else if i == 61 {
        assert(lower_word(keyword_name(61)));
    } else if i == 62 {
        assert(lower_word(keyword_name(62)));
    } else if i == 63 {
        assert(lower_word(keyword_name(63)));
    } else if i == 64 {
        assert(lower_word(keyword_name(64)));
    } else if i == 65 {
        assert(lower_word(keyword_name(65)));
    } else if i == 66 {
        assert(lower_word(keyword_name(66)));
    } else if i == 67 {
        assert(lower_word(keyword_name(67)));
    } else if i == 68 {
        assert(lower_word(keyword_name(68)));
    } else if i == 69 {
        assert(lower_word(keyword_name(69)));
    } else if i == 70 {
        assert(lower_word(keyword_name(70)));
    } else if i == 71 {
        assert(lower_word(keyword_name(71)));
    } else if i == 72 {
        assert(lower_word(keyword_name(72)));
    } else if i == 73 {
        assert(lower_word(keyword_name(73)));
    } else if i == 74 {
        assert(lower_word(keyword_name(74)));
    }
}

proof fn lemma_names_lower_from_75(i: int)
    requires
        75 <= i < 90,
    ensures
        lower_word(keyword_name(i as usize)),
{
    if i == 75 {
        assert(lower_word(keyword_name(75)));
    } else if i == 76 {
        assert(lower_word(keyword_name(76)));
    } else if i == 77 {
        assert(lower_word(keyword_name(77)));
    } else if i == 78 {
        assert(lower_word(keyword_name(78)));
    } else if i == 79 {
        assert(lower_word(keyword_name(79)));
    } else if i == 80 {
        assert(lower_word(keyword_name(80)));
    } else if i == 81 {
        assert(lower_word(keyword_name(81)));
    } else if i == 82 {
        assert(lower_word(keyword_name(82)));
    } else if i == 83 {
        assert(lower_word(keyword_name(83)));
    } else if i == 84 {
        assert(lower_word(keyword_name(84)));
    } else if i == 85 {
        assert(lower_word(keyword_name(85)));
    } else if i == 86 {
        assert(lower_word(keyword_name(86)));
    } else if i == 87 {
        assert(lower_word(keyword_name(87)));
    } else if i == 88 {
        assert(lower_word(keyword_name(88)));
    } else if i == 89 {
        assert(lower_word(keyword_name(89)));
    }
}

proof fn lemma_names_lower_from_90(i: int)
    requires
        90 <= i < 105,
    ensures
        lower_word(keyword_name(i as usize)),
{
    if i == 90 {
        assert(lower_word(keyword_name(90)));
    } else if i == 91 {
        assert(lower_word(keyword_name(91)));
    } else if i == 92 {
        assert(lower_word(keyword_name(92)));
    } else if i == 93 {
        assert(lower_word(keyword_name(93)));
    } else if i == 94 {
        assert(lower_word(keyword_name(94)));
    } else if i == 95 {
        assert(lower_word(keyword_name(95)));
    } else if i == 96 {
        assert(lower_word(keyword_name(96)));
    } else if i == 97 {
        assert(lower_word(keyword_name(97)));
    } else if i == 98 {
        assert(lower_word(keyword_name(98)));
    } else if i == 99 {
        assert(lower_word(keyword_name(99)));
    } else if i == 100 {
        assert(lower_word(keyword_name(100)));
    } else if i == 101 {
        assert(lower_word(keyword_name(101)));
    } else if i == 102 {
        assert(lower_word(keyword_name(102)));
    } else if i == 103 {
        assert(lower_word(keyword_name(103)));
    } else if i == 104 {
        assert(lower_word(keyword_name(104)));
    }
}

proof fn lemma_names_lower_from_105(i: int)
    requires
        105 <= i < 120,
    ensures
        lower_word(keyword_name(i as usize)),
{
    if i == 105 {
        assert(lower_word(keyword_name(105)));
    } else if i == 106 {
        assert(lower_word(keyword_name(106)));
    } else if i == 107 {
        assert(lower_word(keyword_name(107)));
    } else if i == 108 {
        assert(lower_word(keyword_name(108)));
    } else if i == 109 {
        assert(lower_word(keyword_name(109)));
    } else if i == 110 {
        assert(lower_word(keyword_name(110)));
    } else if i == 111 {
        assert(lower_word(keyword_name(111)));
    } else if i == 112 {
        assert(lower_word(keyword_name(112)));
    } else if i == 113 {
        assert(lower_word(keyword_name(113)));
    } else if i == 114 {
        assert(lower_word(keyword_name(114)));
    } else if i == 115 {
        assert(lower_word(keyword_name(115)));
    } else if i == 116 {
        assert(lower_word(keyword_name(116)));
    } else if i == 117 {
        assert(lower_word(keyword_name(117)));
    } else if i == 118 {
        assert(lower_word(keyword_name(118)));
    } else if i == 119 {
        assert(lower_word(keyword_name(119)));
    }
}

proof fn lemma_names_lower_from_120(i: int)
    requires
        120 <= i < 135,
    ensures
        lower_word(keyword_name(i as usize)),
{
    if i == 120 {
        assert(lower_word(keyword_name(120)));
    } else if i == 121 {
        assert(lower_word(keyword_name(121)));
    } else if i == 122 {
        assert(lower_word(keyword_name(122)));
    } else if i == 123 {
        assert(lower_word(keyword_name(123)));
    } else if i == 124 {
        assert(lower_word(keyword_name(124)));
    } else if i == 125 {
        assert(lower_word(keyword_name(125)));
    } else if i == 126 {
        assert(lower_word(keyword_name(126)));
    } else if i == 127 {
        assert(lower_word(keyword_name(127)));
    } else if i == 128 {
        assert(lower_word(keyword_name(128)));
    } else if i == 129 {
        assert(lower_word(keyword_name(129)));
    } else if i == 130 {
        assert(lower_word(keyword_name(130)));
    } else if i == 131 {
        assert(lower_word(keyword_name(131)));
    } else if i == 132 {
        assert(lower_word(keyword_name(132)));
    } else if i == 133 {
        assert(lower_word(keyword_name(133)));
    } else if i == 134 {
        assert(lower_word(keyword_name(134)));
    }
}

proof fn lemma_names_lower_from_135(i: int)
    requires
        135 <= i < 149,
    ensures
        lower_word(keyword_name(i as usize)),
{
    if i == 135 {
        assert(lower_word(keyword_name(135)));
    } else if i == 136 {
        assert(lower_word(keyword_name(136)));
    } else if i == 137 {
        assert(lower_word(keyword_name(137)));
    } else if i == 138 {
        assert(lower_word(keyword_name(138)));
    } else if i == 139 {
        assert(lower_word(keyword_name(139)));
    } else if i == 140 {
        assert(lower_word(keyword_name(140)));
    } else if i == 141 {
        assert(lower_word(keyword_name(141)));
    } else if i == 142 {
        assert(lower_word(keyword_name(142)));
    } else if i == 143 {
        assert(lower_word(keyword_name(143)));
    } else if i == 144 {
        assert(lower_word(keyword_name(144)));
    } else if i == 145 {
        assert(lower_word(keyword_name(145)));
    } else if i == 146 {
        assert(lower_word(keyword_name(146)));
    } else if i == 147 {
        assert(lower_word(keyword_name(147)));
    } else if i == 148 {
        assert(lower_word(keyword_name(148)));
    }
}

/// A lower-case word stays as it is when bit `0x20` is set in every byte.
pub proof fn lemma_lower_word_fixed(s: Seq<u8>)
    requires
        lower_word(s),
    ensures
        lower_all(s) == s,
{
    assert forall|k: int| 0 <= k < s.len() implies (#[trigger] s[k] | 0x20) == s[k] by {
        let b = s[k];
        assert(97 <= b <= 122 ==> (b | 0x20) == b) by (bit_vector);
    }
    assert(lower_all(s) =~= s);
}

proof fn lemma_last_spelled_own(i: int, n: int, folded: bool)
    requires
        0 <= i < n <= KEYWORD_COUNT,
        lower_all(keyword_name(i as usize)) == keyword_name(i as usize),
    ensures
        last_spelled(keyword_name(i as usize), folded, n) == Some(i),
    decreases n - i,
{
    if n - 1 != i {
        lemma_names_distinct(n - 1, i);
        lemma_last_spelled_own(i, n - 1, folded);
    }
}

/// Each name looks up its own colour, spelled exactly or without regard to case.
pub proof fn lemma_lookup_own_name(i: int, folded: bool)
    requires
        0 <= i < KEYWORD_COUNT,
    ensures
        keyword_lookup(keyword_name(i as usize), folded) == Some(keyword_color(i as usize)),
{
    reveal(keyword_lookup);
    lemma_names_lower(i);
    lemma_lower_word_fixed(keyword_name(i as usize));
    lemma_last_spelled_own(i, KEYWORD_COUNT as int, folded);
}

proof fn lemma_red_from_120()
    ensures
        first_opaque_from(255, 0, 0, 120) == Some(120int),
{
    assert(first_opaque_from(255, 0, 0, 120) == Some(120int));
}

proof fn lemma_red_from_110()
    ensures
        first_opaque_from(255, 0, 0, 110) == Some(120int),
{
    lemma_red_from_120();
    assert(first_opaque_from(255, 0, 0, 119) == Some(120int));
    assert(first_opaque_from(255, 0, 0, 118) == Some(120int));
    assert(first_opaque_from(255, 0, 0, 117) == Some(120int));
    assert(first_opaque_from(255, 0, 0, 116) == Some(120int));
    assert(first_opaque_from(255, 0, 0, 115) == Some(120int));
    assert(first_opaque_from(255, 0, 0, 114) == Some(120int));
    assert(first_opaque_from(255, 0, 0, 113) == Some(120int));
    assert(first_opaque_from(255, 0, 0, 112) == Some(120int));
    assert(first_opaque_from(255, 0, 0, 111) == Some(120int));
    assert(first_opaque_from(255, 0, 0, 110) == Some(120int));
}

proof fn lemma_red_from_100()
    ensures
        first_opaque_from(255, 0, 0, 100) == Some(120int),
{
    lemma_red_from_110();
    assert(first_opaque_from(255, 0, 0, 109) == Some(120int));
    assert(first_opaque_from(255, 0, 0, 108) == Some(120int));
    assert(first_opaque_from(255, 0, 0, 107) == Some(120int));
    assert(first_opaque_from(255, 0, 0, 106) == Some(120int));
    assert(first_opaque_from(255, 0, 0, 105) == Some(120int));
    assert(first_opaque_from(255, 0, 0, 104) == Some(120int));
    assert(first_opaque_from(255, 0, 0, 103) == Some(120int));
    assert(first_opaque_from(255, 0, 0, 102) == Some(120int));
    assert(first_opaque_from(255, 0, 0, 101) == Some(120int));
    assert(first_opaque_from(255, 0, 0, 100) == Some(120int));
}

proof fn lemma_red_from_90()
    ensures
        first_opaque_from(255, 0, 0, 90) == Some(120int),
{
    lemma_red_from_100();
    assert(first_opaque_from(255, 0, 0, 99) == Some(120int));
    assert(first_opaque_from(255, 0, 0, 98) == Some(120int));
    assert(first_opaque_from(255, 0, 0, 97) == Some(120int));
    assert(first_opaque_from(255, 0, 0, 96) == Some(120int));
    assert(first_opaque_from(255, 0, 0, 95) == Some(120int));
    assert(first_opaque_from(255, 0, 0, 94) == Some(120int));
    assert(first_opaque_from(255, 0, 0, 93) == Some(120int));
    assert(first_opaque_from(255, 0, 0, 92) == Some(120int));
    assert(first_opaque_from(255, 0, 0, 91) == Some(120int));
    assert(first_opaque_from(255, 0, 0, 90) == Some(120int));
}

proof fn lemma_red_from_80()
    ensures
        first_opaque_from(255, 0, 0, 80) == Some(120int),
{
    lemma_red_from_90();
    assert(first_opaque_from(255, 0, 0, 89) == Some(120int));
    assert(first_opaque_from(255, 0, 0, 88) == Some(120int));
    assert(first_opaque_from(255, 0, 0, 87) == Some(120int));
    assert(first_opaque_from(255, 0, 0, 86) == Some(120int));
    assert(first_opaque_from(255, 0, 0, 85) == Some(120int));
    assert(first_opaque_from(255, 0, 0, 84) == Some(120int));
    assert(first_opaque_from(255, 0, 0, 83) == Some(120int));
    assert(first_opaque_from(255, 0, 0, 82) == Some(120int));
    assert(first_opaque_from(255, 0, 0, 81) == Some(120int));
    assert(first_opaque_from(255, 0, 0, 80) == Some(120int));
}

proof fn lemma_red_from_70()
    ensures
        first_opaque_from(255, 0, 0, 70) == Some(120int),
{
    lemma_red_from_80();
    assert(first_opaque_from(255, 0, 0, 79) == Some(120int));
    assert(first_opaque_from(255, 0, 0, 78) == Some(120int));
    assert(first_opaque_from(255, 0, 0, 77) == Some(120int));
    assert(first_opaque_from(255, 0, 0, 76) == Some(120int));
    assert(first_opaque_from(255, 0, 0, 75) == Some(120int));
    assert(first_opaque_from(255, 0, 0, 74) == Some(120int));
    assert(first_opaque_from(255, 0, 0, 73) == Some(120int));
    assert(first_opaque_from(255, 0, 0, 72) == Some(120int));
    assert(first_opaque_from(255, 0, 0, 71) == Some(120int));
    assert(first_opaque_from(255, 0, 0, 70) == Some(120int));
}

proof fn lemma_red_from_60()
    ensures
        first_opaque_from(255, 0, 0, 60) == Some(120int),
{
    lemma_red_from_70();
    assert(first_opaque_from(255, 0, 0, 69) == Some(120int));
    assert(first_opaque_from(255, 0, 0, 68) == Some(120int));
    assert(first_opaque_from(255, 0, 0, 67) == Some(120int));
    assert(first_opaque_from(255, 0, 0, 66) == Some(120int));
    assert(first_opaque_from(255, 0, 0, 65) == Some(120int));
    assert(first_opaque_from(255, 0, 0, 64) == Some(120int));
    assert(first_opaque_from(255, 0, 0, 63) == Some(120int));
    assert(first_opaque_from(255, 0, 0, 62) == Some(120int));
    assert(first_opaque_from(255, 0, 0, 61) == Some(120int));
    assert(first_opaque_from(255, 0, 0, 60) == Some(120int));
}

proof fn lemma_red_from_50()
    ensures
        first_opaque_from(255, 0, 0, 50) == Some(120int),
{
    lemma_red_from_60();
    assert(first_opaque_from(255, 0, 0, 59) == Some(120int));
    assert(first_opaque_from(255, 0, 0, 58) == Some(120int));
    assert(first_opaque_from(255, 0, 0, 57) == Some(120int));
    assert(first_opaque_from(255, 0, 0, 56) == Some(120int));
    assert(first_opaque_from(255, 0, 0, 55) == Some(120int));
    assert(first_opaque_from(255, 0, 0, 54) == Some(120int));
    assert(first_opaque_from(255, 0, 0, 53) == Some(120int));
    assert(first_opaque_from(255, 0, 0, 52) == Some(120int));
    assert(first_opaque_from(255, 0, 0, 51) == Some(120int));
    assert(first_opaque_from(255, 0, 0, 50) == Some(120int));
}

proof fn lemma_red_from_40()
    ensures
        first_opaque_from(255, 0, 0, 40) == Some(120int),
{
    lemma_red_from_50();
    assert(first_opaque_from(255, 0, 0, 49) == Some(120int));
    assert(first_opaque_from(255, 0, 0, 48) == Some(120int));
    assert(first_opaque_from(255, 0, 0, 47) == Some(120int));
    assert(first_opaque_from(255, 0, 0, 46) == Some(120int));
    assert(first_opaque_from(255, 0, 0, 45) == Some(120int));
    assert(first_opaque_from(255, 0, 0, 44) == Some(120int));
    assert(first_opaque_from(255, 0, 0, 43) == Some(120int));
    assert(first_opaque_from(255, 0, 0, 42) == Some(120int));
    assert(first_opaque_from(255, 0, 0, 41) == Some(120int));
    assert(first_opaque_from(255, 0, 0, 40) == Some(120int));
}

proof fn lemma_red_from_30()
    ensures
        first_opaque_from(255, 0, 0, 30) == Some(120int),
{
    lemma_red_from_40();
    assert(first_opaque_from(255, 0, 0, 39) == Some(120int));
    assert(first_opaque_from(255, 0, 0, 38) == Some(120int));
    assert(first_opaque_from(255, 0, 0, 37) == Some(120int));
    assert(first_opaque_from(255, 0, 0, 36) == Some(120int));
    assert(first_opaque_from(255, 0, 0, 35) == Some(120int));
    assert(first_opaque_from(255, 0, 0, 34) == Some(120int));
    assert(first_opaque_from(255, 0, 0, 33) == Some(120int));
    assert(first_opaque_from(255, 0, 0, 32) == Some(120int));
    assert(first_opaque_from(255, 0, 0, 31) == Some(120int));
    assert(first_opaque_from(255, 0, 0, 30) == Some(120int));
}

proof fn lemma_red_from_20()
    ensures
        first_opaque_from(255, 0, 0, 20) == Some(120int),
{
    lemma_red_from_30();
    assert(first_opaque_from(255, 0, 0, 29) == Some(120int));
    assert(first_opaque_from(255, 0, 0, 28) == Some(120int));
    assert(first_opaque_from(255, 0, 0, 27) == Some(120int));
    assert(first_opaque_from(255, 0, 0, 26) == Some(120int));
    assert(first_opaque_from(255, 0, 0, 25) == Some(120int));
    assert(first_opaque_from(255, 0, 0, 24) == Some(120int));
    assert(first_opaque_from(255, 0, 0, 23) == Some(120int));
    assert(first_opaque_from(255, 0, 0, 22) == Some(120int));
    assert(first_opaque_from(255, 0, 0, 21) == Some(120int));
    assert(first_opaque_from(255, 0, 0, 20) == Some(120int));
}

proof fn lemma_red_from_10()
    ensures
        first_opaque_from(255, 0, 0, 10) == Some(120int),
{
    lemma_red_from_20();
    assert(first_opaque_from(255, 0, 0, 19) == Some(120int));
    assert(first_opaque_from(255, 0, 0, 18) == Some(120int));
    assert(first_opaque_from(255, 0, 0, 17) == Some(120int));
    assert(first_opaque_from(255, 0, 0, 16) == Some(120int));
    assert(first_opaque_from(255, 0, 0, 15) == Some(120int));
    assert(first_opaque_from(255, 0, 0, 14) == Some(120int));
    assert(first_opaque_from(255, 0, 0, 13) == Some(120int));
    assert(first_opaque_from(255, 0, 0, 12) == Some(120int));
    assert(first_opaque_from(255, 0, 0, 11) == Some(120int));
    assert(first_opaque_from(255, 0, 0, 10) == Some(120int));
}

proof fn lemma_red_from_0()
    ensures
        first_opaque_from(255, 0, 0, 0) == Some(120int),
{
    lemma_red_from_10();
    assert(first_opaque_from(255, 0, 0, 9) == Some(120int));
    assert(first_opaque_from(255, 0, 0, 8) == Some(120int));
    assert(first_opaque_from(255, 0, 0, 7) == Some(120int));
    assert(first_opaque_from(255, 0, 0, 6) == Some(120int));
    assert(first_opaque_from(255, 0, 0, 5) == Some(120int));
    assert(first_opaque_from(255, 0, 0, 4) == Some(120int));
    assert(first_opaque_from(255, 0, 0, 3) == Some(120int));
    assert(first_opaque_from(255, 0, 0, 2) == Some(120int));
    assert(first_opaque_from(255, 0, 0, 1) == Some(120int));
    assert(first_opaque_from(255, 0, 0, 0) == Some(120int));
}

/// The first opaque named colour with the channels of red is `red` itself.
pub proof fn lemma_red_is_named()
    ensures
        opaque_name_index(255, 0, 0) == Some(120int),
        keyword_name(120) == seq![114u8, 101u8, 100u8],
{
    lemma_red_from_0();
}

/// The first index of the table whose colour is `c`; -1 for a colour not in the table.
pub open spec fn first_index_of(c: Color) -> int {
    if c == (Color { r: 240, g: 248, b: 255, a: 255 }) {
        0
    } else if c == (Color { r: 250, g: 235, b: 215, a: 255 }) {
        1
    } else if c == (Color { r: 0, g: 255, b: 255, a: 255 }) {
        2
    } else if c == (Color { r: 127, g: 255, b: 212, a: 255 }) {
        3
    } else if c == (Color { r: 240, g: 255, b: 255, a: 255 }) {
        4
    } else if c == (Color { r: 245, g: 245, b: 220, a: 255 }) {
        5
    } else if c == (Color { r: 255, g: 228, b: 196, a: 255 }) {
        6
    } else if c == (Color { r: 0, g: 0, b: 0, a: 255 }) {
        7
    } else if c == (Color { r: 255, g: 235, b: 205, a: 255 }) {
        8
    } else if c == (Color { r: 0, g: 0, b: 255, a: 255 }) {
        9
    } else if c == (Color { r: 138, g: 43, b: 226, a: 255 }) {
        10
    } else if c == (Color { r: 165, g: 42, b: 42, a: 255 }) {
        11
    } else if c == (Color { r: 222, g: 184, b: 135, a: 255 }) {
        12
    } else if c == (Color { r: 95, g: 158, b: 160, a: 255 }) {
        13
    } else if c == (Color { r: 127, g: 255, b: 0, a: 255 }) {
        14
    } else if c == (Color { r: 210, g: 105, b: 30, a: 255 }) {
        15
    } else if c == (Color { r: 255, g: 127, b: 80, a: 255 }) {
        16
    } else if c == (Color { r: 100, g: 149, b: 237, a: 255 }) {
        17
    } else if c == (Color { r: 255, g: 248, b: 220, a: 255 }) {
        18
    } else if c == (Color { r: 220, g: 20, b: 60, a: 255 }) {
        19
    } else if c == (Color { r: 0, g: 0, b: 139, a: 255 }) {
        21
    } else if c == (Color { r: 0, g: 139, b: 139, a: 255 }) {
        22
    } else if c == (Color { r: 184, g: 134, b: 11, a: 255 }) {
        23
    } else if c == (Color { r: 169, g: 169, b: 169, a: 255 }) {
        24
    } else if c == (Color { r: 0, g: 100, b: 0, a: 255 }) {
        25
    } else if c == (Color { r: 189, g: 183, b: 107, a: 255 }) {
        27
    } else if c == (Color { r: 139, g: 0, b: 139, a: 255 }) {
        28
    } else if c == (Color { r: 85, g: 107, b: 47, a: 255 }) {
        29
    } else if c == (Color { r: 255, g: 140, b: 0, a: 255 }) {
        30
    } else if c == (Color { r: 153, g: 50, b: 204, a: 255 }) {
        31
    } else if c == (Color { r: 139, g: 0, b: 0, a: 255 }) {
        32
    } else if c == (Color { r: 233, g: 150, b: 122, a: 255 }) {
        33
    } else if c == (Color { r: 143, g: 188, b: 143, a: 255 }) {
        34
    } else if c == (Color { r: 72, g: 61, b: 139, a: 255 }) {
        35
    } else if c == (Color { r: 47, g: 79, b: 79, a: 255 }) {
        36
    } else if c == (Color { r: 0, g: 206, b: 209, a: 255 }) {
        38
    } else if c == (Color { r: 148, g: 0, b: 211, a: 255 }) {
        39
    } else if c == (Color { r: 255, g: 20, b: 147, a: 255 }) {
        40
    } else if c == (Color { r: 0, g: 191, b: 255, a: 255 }) {
        41
    } else if c == (Color { r: 105, g: 105, b: 105, a: 255 }) {
        42
    } else if c == (Color { r: 30, g: 144, b: 255, a: 255 }) {
        44
    } else if c == (Color { r: 178, g: 34, b: 34, a: 255 }) {
        45
    } else if c == (Color { r: 255, g: 250, b: 240, a: 255 }) {
        46
    } else if c == (Color { r: 34, g: 139, b: 34, a: 255 }) {
        47
    } else if c == (Color { r: 255, g: 0, b: 255, a: 255 }) {
        48
    } else if c == (Color { r: 220, g: 220, b: 220, a: 255 }) {
        49
    } else if c == (Color { r: 248, g: 248, b: 255, a: 255 }) {
        50
    } else if c == (Color { r: 255, g: 215, b: 0, a: 255 }) {
        51
    } else if c == (Color { r: 218, g: 165, b: 32, a: 255 }) {
        52
    } else if c == (Color { r: 128, g: 128, b: 128, a: 255 }) {
        53
    } else if c == (Color { r: 0, g: 128, b: 0, a: 255 }) {
        54
    } else if c == (Color { r: 173, g: 255, b: 47, a: 255 }) {
        55
    } else if c == (Color { r: 240, g: 255, b: 240, a: 255 }) {
        57
    } else if c == (Color { r: 255, g: 105, b: 180, a: 255 }) {
        58
    } else if c == (Color { r: 205, g: 92, b: 92, a: 255 }) {
        59
    } else if c == (Color { r: 75, g: 0, b: 130, a: 255 }) {
        60
    } else if c == (Color { r: 255, g: 255, b: 240, a: 255 }) {
        61
    } else if c == (Color { r: 240, g: 230, b: 140, a: 255 }) {
        62
    } else if c == (Color { r: 230, g: 230, b: 250, a: 255 }) {
        63
    } else if c == (Color { r: 255, g: 240, b: 245, a: 255 }) {
        64
    } else if c == (Color { r: 124, g: 252, b: 0, a: 255 }) {
        65
    } else if c == (Color { r: 255, g: 250, b: 205, a: 255 }) {
        66
    } else if c == (Color { r: 173, g: 216, b: 230, a: 255 }) {
        67
    } else if c == (Color { r: 240, g: 128, b: 128, a: 255 }) {
        68
    } else if c == (Color { r: 224, g: 255, b: 255, a: 255 }) {
        69
    } else if c == (Color { r: 250, g: 250, b: 210, a: 255 }) {
        70
    } else if c == (Color { r: 211, g: 211, b: 211, a: 255 }) {
        71
    } else if c == (Color { r: 144, g: 238, b: 144, a: 255 }) {
        72
    } else if c == (Color { r: 255, g: 182, b: 193, a: 255 }) {
        74
    } else if c == (Color { r: 255, g: 160, b: 122, a: 255 }) {
        75
    } else if c == (Color { r: 32, g: 178, b: 170, a: 255 }) {
        76
    } else if c == (Color { r: 135, g: 206, b: 250, a: 255 }) {
        77
    } else if c == (Color { r: 119, g: 136, b: 153, a: 255 }) {
        78
    } else if c == (Color { r: 176, g: 196, b: 222, a: 255 }) {
        80
    } else if c == (Color { r: 255, g: 255, b: 224, a: 255 }) {
        81
    } else if c == (Color { r: 0, g: 255, b: 0, a: 255 }) {
        82
    } else if c == (Color { r: 50, g: 205, b: 50, a: 255 }) {
        83
    } else if c == (Color { r: 250, g: 240, b: 230, a: 255 }) {
        84
    } else if c == (Color { r: 128, g: 0, b: 0, a: 255 }) {
        86
    } else if c == (Color { r: 102, g: 205, b: 170, a: 255 }) {
        87
    } else if c == (Color { r: 0, g: 0, b: 205, a: 255 }) {
        88
    } else if c == (Color { r: 186, g: 85, b: 211, a: 255 }) {
        89
    } else if c == (Color { r: 147, g: 112, b: 219, a: 255 }) {
        90
    } else if c == (Color { r: 60, g: 179, b: 113, a: 255 }) {
        91
    } else if c == (Color { r: 123, g: 104, b: 238, a: 255 }) {
        92
    } else if c == (Color { r: 0, g: 250, b: 154, a: 255 }) {
        93
    } else if c == (Color { r: 72, g: 209, b: 204, a: 255 }) {
        94
    } else if c == (Color { r: 199, g: 21, b: 133, a: 255 }) {
        95
    } else if c == (Color { r: 25, g: 25, b: 112, a: 255 }) {
        96
    } else if c == (Color { r: 245, g: 255, b: 250, a: 255 }) {
        97
    } else if c == (Color { r: 255, g: 228, b: 225, a: 255 }) {
        98
    } else if c == (Color { r: 255, g: 228, b: 181, a: 255 }) {
        99
    } else if c == (Color { r: 255, g: 222, b: 173, a: 255 }) {
        100
    } else if c == (Color { r: 0, g: 0, b: 128, a: 255 }) {
        101
    } else if c == (Color { r: 253, g: 245, b: 230, a: 255 }) {
        102
    } else if c == (Color { r: 128, g: 128, b: 0, a: 255 }) {
        103
    } else if c == (Color { r: 107, g: 142, b: 35, a: 255 }) {
        104
    } else if c == (Color { r: 255, g: 165, b: 0, a: 255 }) {
        105
    } else if c == (Color { r: 255, g: 69, b: 0, a: 255 }) {
        106
    } else if c == (Color { r: 218, g: 112, b: 214, a: 255 }) {
        107
    } else if c == (Color { r: 238, g: 232, b: 170, a: 255 }) {
        108
    } else if c == (Color { r: 152, g: 251, b: 152, a: 255 }) {
        109
    } else if c == (Color { r: 175, g: 238, b: 238, a: 255 }) {
        110
    } else if c == (Color { r: 219, g: 112, b: 147, a: 255 }) {
        111
    } else if c == (Color { r: 255, g: 239, b: 213, a: 255 }) {
        112
    } else if c == (Color { r: 255, g: 218, b: 185, a: 255 }) {
        113
    } else if c == (Color { r: 205, g: 133, b: 63, a: 255 }) {
        114
    } else if c == (Color { r: 255, g: 192, b: 203, a: 255 }) {
        115
    } else if c == (Color { r: 221, g: 160, b: 221, a: 255 }) {
        116
    } else if c == (Color { r: 176, g: 224, b: 230, a: 255 }) {
        117
    } else if c == (Color { r: 128, g: 0, b: 128, a: 255 }) {
        118
    } else if c == (Color { r: 102, g: 51, b: 153, a: 255 }) {
        119
    } else if c == (Color { r: 255, g: 0, b: 0, a: 255 }) {
        120
    } else if c == (Color { r: 188, g: 143, b: 143, a: 255 }) {
        121
    } else if c == (Color { r: 65, g: 105, b: 225, a: 255 }) {
        122
    } else if c == (Color { r: 139, g: 69, b: 19, a: 255 }) {
        123
    } else if c == (Color { r: 250, g: 128, b: 114, a: 255 }) {
        124
    } else if c == (Color { r: 244, g: 164, b: 96, a: 255 }) {
        125
    } else if c == (Color { r: 46, g: 139, b: 87, a: 255 }) {
        126
    } else if c == (Color { r: 255, g: 245, b: 238, a: 255 }) {
        127
    } else if c == (Color { r: 160, g: 82, b: 45, a: 255 }) {
        128
    } else if c == (Color { r: 192, g: 192, b: 192, a: 255 }) {
        129
    } else if c == (Color { r: 135, g: 206, b: 235, a: 255 }) {
        130
    } else if c == (Color { r: 106, g: 90, b: 205, a: 255 }) {
        131
    } else if c == (Color { r: 112, g: 128, b: 144, a: 255 }) {
        132
    } else if c == (Color { r: 255, g: 250, b: 250, a: 255 }) {
        134
    } else if c == (Color { r: 0, g: 255, b: 127, a: 255 }) {
        135
    } else if c == (Color { r: 70, g: 130, b: 180, a: 255 }) {
        136
    } else if c == (Color { r: 210, g: 180, b: 140, a: 255 }) {
        137
    } else if c == (Color { r: 0, g: 128, b: 128, a: 255 }) {
        138
    } else if c == (Color { r: 216, g: 191, b: 216, a: 255 }) {
        139
    } else if c == (Color { r: 255, g: 99, b: 71, a: 255 }) {
        140
    } else if c == (Color { r: 0, g: 0, b: 0, a: 0 }) {
        141
    } else if c == (Color { r: 64, g: 224, b: 208, a: 255 }) {
        142
    } else if c == (Color { r: 238, g: 130, b: 238, a: 255 }) {
        143
    } else if c == (Color { r: 245, g: 222, b: 179, a: 255 }) {
        144
    } else if c == (Color { r: 255, g: 255, b: 255, a: 255 }) {
        145
    } else if c == (Color { r: 245, g: 245, b: 245, a: 255 }) {
        146
    } else if c == (Color { r: 255, g: 255, b: 0, a: 255 }) {
        147
    } else if c == (Color { r: 154, g: 205, b: 50, a: 255 }) {
        148
    } else {
        -1
    }
}

/// Names of the same colour are equally long: each is as long as the first name of its colour.
pub proof fn lemma_first_name_length(i: int)
    requires
        0 <= i < KEYWORD_COUNT,
    ensures
        0 <= first_index_of(keyword_color(i as usize)) <= i,
        keyword_color(first_index_of(keyword_color(i as usize)) as usize) == keyword_color(i as usize),
        keyword_name(i as usize).len() == keyword_name(
            first_index_of(keyword_color(i as usize)) as usize,
        ).len(),
{
    if i < 15 {
        lemma_first_name_length_from_0(i);
    } else if i < 30 {
        lemma_first_name_length_from_15(i);
    } else if i < 45 {
        lemma_first_name_length_from_30(i);
    } else if i < 60 {
        lemma_first_name_length_from_45(i);
    } else if i < 75 {
        lemma_first_name_length_from_60(i);
    } else if i < 90 {
        lemma_first_name_length_from_75(i);
    } else if i < 105 {
        lemma_first_name_length_from_90(i);
    } else if i < 120 {
        lemma_first_name_length_from_105(i);
    } else if i < 135 {
        lemma_first_name_length_from_120(i);
    } else if i < 149 {
        lemma_first_name_length_from_135(i);
    }
}

proof fn lemma_first_name_length_from_0(i: int)
    requires
        0 <= i < 15,
    ensures
        0 <= first_index_of(keyword_color(i as usize)) <= i,
        keyword_color(first_index_of(keyword_color(i as usize)) as usize) == keyword_color(i as usize),
        keyword_name(i as usize).len() == keyword_name(
            first_index_of(keyword_color(i as usize)) as usize,
        ).len(),
{
    if i == 0 {
        assert(first_index_of(keyword_color(0)) == 0);
    } else if i == 1 {
        assert(first_index_of(keyword_color(1)) == 1);
    } else if i == 2 {
        assert(first_index_of(keyword_color(2)) == 2);
    } else if i == 3 {
        assert(first_index_of(keyword_color(3)) == 3);
    } else if i == 4 {
        assert(first_index_of(keyword_color(4)) == 4);
    } else if i == 5 {
        assert(first_index_of(keyword_color(5)) == 5);
    } else if i == 6 {
        assert(first_index_of(keyword_color(6)) == 6);
    } else if i == 7 {
        assert(first_index_of(keyword_color(7)) == 7);
    } else if i == 8 {
        assert(first_index_of(keyword_color(8)) == 8);
    } else if i == 9 {
        assert(first_index_of(keyword_color(9)) == 9);
    } else if i == 10 {
        assert(first_index_of(keyword_color(10)) == 10);
    } else if i == 11 {
        assert(first_index_of(keyword_color(11)) == 11);
    } else if i == 12 {
        assert(first_index_of(keyword_color(12)) == 12);
    } else if i == 13 {
        assert(first_index_of(keyword_color(13)) == 13);
    } else if i == 14 {
        assert(first_index_of(keyword_color(14)) == 14);
    }
}

proof fn lemma_first_name_length_from_15(i: int)
    requires
        15 <= i < 30,
    ensures
        0 <= first_index_of(keyword_color(i as usize)) <= i,
        keyword_color(first_index_of(keyword_color(i as usize)) as usize) == keyword_color(i as usize),
        keyword_name(i as usize).len() == keyword_name(
            first_index_of(keyword_color(i as usize)) as usize,
        ).len(),
{
    if i == 15 {
        assert(first_index_of(keyword_color(15)) == 15);
    } else if i == 16 {
        assert(first_index_of(keyword_color(16)) == 16);
    } else if i == 17 {
        assert(first_index_of(keyword_color(17)) == 17);
    } else if i == 18 {
        assert(first_index_of(keyword_color(18)) == 18);
    } else if i == 19 {
        assert(first_index_of(keyword_color(19)) == 19);
    } else if i == 20 {
        assert(first_index_of(keyword_color(20)) == 2);
    } else if i == 21 {
        assert(first_index_of(keyword_color(21)) == 21);
    } else if i == 22 {
        assert(first_index_of(keyword_color(22)) == 22);
    } else if i == 23 {
        assert(first_index_of(keyword_color(23)) == 23);
    } else if i == 24 {
        assert(first_index_of(keyword_color(24)) == 24);
    } else if i == 25 {
        assert(first_index_of(keyword_color(25)) == 25);
    } else if i == 26 {
        assert(first_index_of(keyword_color(26)) == 24);
    } else if i == 27 {
        assert(first_index_of(keyword_color(27)) == 27);
    } else if i == 28 {
        assert(first_index_of(keyword_color(28)) == 28);
    } else if i == 29 {
        assert(first_index_of(keyword_color(29)) == 29);
    }
}

proof fn lemma_first_name_length_from_30(i: int)
    requires
        30 <= i < 45,
    ensures
        0 <= first_index_of(keyword_color(i as usize)) <= i,
        keyword_color(first_index_of(keyword_color(i as usize)) as usize) == keyword_color(i as usize),
        keyword_name(i as usize).len() == keyword_name(
            first_index_of(keyword_color(i as usize)) as usize,
        ).len(),
{
    if i == 30 {
        assert(first_index_of(keyword_color(30)) == 30);
    } else if i == 31 {
        assert(first_index_of(keyword_color(31)) == 31);
    } else if i == 32 {
        assert(first_index_of(keyword_color(32)) == 32);
    } else if i == 33 {
        assert(first_index_of(keyword_color(33)) == 33);
    } else if i == 34 {
        assert(first_index_of(keyword_color(34)) == 34);
    } else if i == 35 {
        assert(first_index_of(keyword_color(35)) == 35);
    } else if i == 36 {
        assert(first_index_of(keyword_color(36)) == 36);
    } else if i == 37 {
        assert(first_index_of(keyword_color(37)) == 36);
    } else if i == 38 {
        assert(first_index_of(keyword_color(38)) == 38);
    } else if i == 39 {
        assert(first_index_of(keyword_color(39)) == 39);
    } else if i == 40 {
        assert(first_index_of(keyword_color(40)) == 40);
    } else if i == 41 {
        assert(first_index_of(keyword_color(41)) == 41);
    } else if i == 42 {
        assert(first_index_of(keyword_color(42)) == 42);
    } else if i == 43 {
        assert(first_index_of(keyword_color(43)) == 42);
    } else if i == 44 {
        assert(first_index_of(keyword_color(44)) == 44);
    }
}

proof fn lemma_first_name_length_from_45(i: int)
    requires
        45 <= i < 60,
    ensures
        0 <= first_index_of(keyword_color(i as usize)) <= i,
        keyword_color(first_index_of(keyword_color(i as usize)) as usize) == keyword_color(i as usize),
        keyword_name(i as usize).len() == keyword_name(
            first_index_of(keyword_color(i as usize)) as usize,
        ).len(),
{
    if i == 45 {
        assert(first_index_of(keyword_color(45)) == 45);
    } else if i == 46 {
        assert(first_index_of(keyword_color(46)) == 46);
    } else if i == 47 {
        assert(first_index_of(keyword_color(47)) == 47);
    } else if i == 48 {
        assert(first_index_of(keyword_color(48)) == 48);
    } else if i == 49 {
        assert(first_index_of(keyword_color(49)) == 49);
    } else if i == 50 {
        assert(first_index_of(keyword_color(50)) == 50);
    } else if i == 51 {
        assert(first_index_of(keyword_color(51)) == 51);
    } else if i == 52 {
        assert(first_index_of(keyword_color(52)) == 52);
    } else if i == 53 {
        assert(first_index_of(keyword_color(53)) == 53);
    } else if i == 54 {
        assert(first_index_of(keyword_color(54)) == 54);
    } else if i == 55 {
        assert(first_index_of(keyword_color(55)) == 55);
    } else if i == 56 {
        assert(first_index_of(keyword_color(56)) == 53);
    } else if i == 57 {
        assert(first_index_of(keyword_color(57)) == 57);
    } else if i == 58 {
        assert(first_index_of(keyword_color(58)) == 58);
    } else if i == 59 {
        assert(first_index_of(keyword_color(59)) == 59);
    }
}

proof fn lemma_first_name_length_from_60(i: int)
    requires
        60 <= i < 75,
    ensures
        0 <= first_index_of(keyword_color(i as usize)) <= i,
        keyword_color(first_index_of(keyword_color(i as usize)) as usize) == keyword_color(i as usize),
        keyword_name(i as usize).len() == keyword_name(
            first_index_of(keyword_color(i as usize)) as usize,
        ).len(),
{
    if i == 60 {
        assert(first_index_of(keyword_color(60)) == 60);
    } else if i == 61 {
        assert(first_index_of(keyword_color(61)) == 61);
    } else if i == 62 {
        assert(first_index_of(keyword_color(62)) == 62);
    } else if i == 63 {
        assert(first_index_of(keyword_color(63)) == 63);
    } else if i == 64 {
        assert(first_index_of(keyword_color(64)) == 64);
    } else if i == 65 {
        assert(first_index_of(keyword_color(65)) == 65);
    } else if i == 66 {
        assert(first_index_of(keyword_color(66)) == 66);
    } else if i == 67 {
        assert(first_index_of(keyword_color(67)) == 67);
    } else if i == 68 {
        assert(first_index_of(keyword_color(68)) == 68);
    } else if i == 69 {
        assert(first_index_of(keyword_color(69)) == 69);
    } else if i == 70 {
        assert(first_index_of(keyword_color(70)) == 70);
    } else if i == 71 {
        assert(first_index_of(keyword_color(71)) == 71);
    } else if i == 72 {
        assert(first_index_of(keyword_color(72)) == 72);
    } else if i == 73 {
        assert(first_index_of(keyword_color(73)) == 71);
    } else if i == 74 {
        assert(first_index_of(keyword_color(74)) == 74);
    }
}

proof fn lemma_first_name_length_from_75(i: int)
    requires
        75 <= i < 90,
    ensures
        0 <= first_index_of(keyword_color(i as usize)) <= i,
        keyword_color(first_index_of(keyword_color(i as usize)) as usize) == keyword_color(i as usize),
        keyword_name(i as usize).len() == keyword_name(
            first_index_of(keyword_color(i as usize)) as usize,
        ).len(),
{
    if i == 75 {
        assert(first_index_of(keyword_color(75)) == 75);
    } else if i == 76 {
        assert(first_index_of(keyword_color(76)) == 76);
    } else if i == 77 {
        assert(first_index_of(keyword_color(77)) == 77);
    } else if i == 78 {
        assert(first_index_of(keyword_color(78)) == 78);
    } else if i == 79 {
        assert(first_index_of(keyword_color(79)) == 78);
    } else if i == 80 {
        assert(first_index_of(keyword_color(80)) == 80);
    } else if i == 81 {
        assert(first_index_of(keyword_color(81)) == 81);
    } else if i == 82 {
        assert(first_index_of(keyword_color(82)) == 82);
    } else if i == 83 {
        assert(first_index_of(keyword_color(83)) == 83);
    } else if i == 84 {
        assert(first_index_of(keyword_color(84)) == 84);
    } else if i == 85 {
        assert(first_index_of(keyword_color(85)) == 48);
    } else if i == 86 {
        assert(first_index_of(keyword_color(86)) == 86);
    } else if i == 87 {
        assert(first_index_of(keyword_color(87)) == 87);
    } else if i == 88 {
        assert(first_index_of(keyword_color(88)) == 88);
    } else if i == 89 {
        assert(first_index_of(keyword_color(89)) == 89);
    }
}

proof fn lemma_first_name_length_from_90(i: int)
    requires
        90 <= i < 105,
    ensures
        0 <= first_index_of(keyword_color(i as usize)) <= i,
        keyword_color(first_index_of(keyword_color(i as usize)) as usize) == keyword_color(i as usize),
        keyword_name(i as usize).len() == keyword_name(
            first_index_of(keyword_color(i as usize)) as usize,
        ).len(),
{
    if i == 90 {
        assert(first_index_of(keyword_color(90)) == 90);
    } else if i == 91 {
        assert(first_index_of(keyword_color(91)) == 91);
    } else if i == 92 {
        assert(first_index_of(keyword_color(92)) == 92);
    } else if i == 93 {
        assert(first_index_of(keyword_color(93)) == 93);
    } else if i == 94 {
        assert(first_index_of(keyword_color(94)) == 94);
    } else if i == 95 {
        assert(first_index_of(keyword_color(95)) == 95);
    } else if i == 96 {
        assert(first_index_of(keyword_color(96)) == 96);
    } else if i == 97 {
        assert(first_index_of(keyword_color(97)) == 97);
    } else if i == 98 {
        assert(first_index_of(keyword_color(98)) == 98);
    } else if i == 99 {
        assert(first_index_of(keyword_color(99)) == 99);
    } else if i == 100 {
        assert(first_index_of(keyword_color(100)) == 100);
    } else if i == 101 {
        assert(first_index_of(keyword_color(101)) == 101);
    } else if i == 102 {
        assert(first_index_of(keyword_color(102)) == 102);
    } else if i == 103 {
        assert(first_index_of(keyword_color(103)) == 103);
    } else if i == 104 {
        assert(first_index_of(keyword_color(104)) == 104);
    }
}

proof fn lemma_first_name_length_from_105(i: int)
    requires
        105 <= i < 120,
    ensures
        0 <= first_index_of(keyword_color(i as usize)) <= i,
        keyword_color(first_index_of(keyword_color(i as usize)) as usize) == keyword_color(i as usize),
        keyword_name(i as usize).len() == keyword_name(
            first_index_of(keyword_color(i as usize)) as usize,
        ).len(),
{
    if i == 105 {
        assert(first_index_of(keyword_color(105)) == 105);
    } else if i == 106 {
        assert(first_index_of(keyword_color(106)) == 106);
    } else if i == 107 {
        assert(first_index_of(keyword_color(107)) == 107);
    } else if i == 108 {
        assert(first_index_of(keyword_color(108)) == 108);
    } else if i == 109 {
        assert(first_index_of(keyword_color(109)) == 109);
    } else if i == 110 {
        assert(first_index_of(keyword_color(110)) == 110);
    } else if i == 111 {
        assert(first_index_of(keyword_color(111)) == 111);
    } else if i == 112 {
        assert(first_index_of(keyword_color(112)) == 112);
    } else if i == 113 {
        assert(first_index_of(keyword_color(113)) == 113);
    } else if i == 114 {
        assert(first_index_of(keyword_color(114)) == 114);
    } else if i == 115 {
        assert(first_index_of(keyword_color(115)) == 115);
    } else if i == 116 {
        assert(first_index_of(keyword_color(116)) == 116);
    } else if i == 117 {
        assert(first_index_of(keyword_color(117)) == 117);
    } else if i == 118 {
        assert(first_index_of(keyword_color(118)) == 118);
    } else if i == 119 {
        assert(first_index_of(keyword_color(119)) == 119);
    }
}

proof fn lemma_first_name_length_from_120(i: int)
    requires
        120 <= i < 135,
    ensures
        0 <= first_index_of(keyword_color(i as usize)) <= i,
        keyword_color(first_index_of(keyword_color(i as usize)) as usize) == keyword_color(i as usize),
        keyword_name(i as usize).len() == keyword_name(
            first_index_of(keyword_color(i as usize)) as usize,
        ).len(),
{
    if i == 120 {
        assert(first_index_of(keyword_color(120)) == 120);
    } else if i == 121 {
        assert(first_index_of(keyword_color(121)) == 121);
    } else if i == 122 {
        assert(first_index_of(keyword_color(122)) == 122);
    } else if i == 123 {
        assert(first_index_of(keyword_color(123)) == 123);
    } else if i == 124 {
        assert(first_index_of(keyword_color(124)) == 124);
    } else if i == 125 {
        assert(first_index_of(keyword_color(125)) == 125);
    } else if i == 126 {
        assert(first_index_of(keyword_color(126)) == 126);
    } else if i == 127 {
        assert(first_index_of(keyword_color(127)) == 127);
    } else if i == 128 {
        assert(first_index_of(keyword_color(128)) == 128);
    } else if i == 129 {
        assert(first_index_of(keyword_color(129)) == 129);
    } else if i == 130 {
        assert(first_index_of(keyword_color(130)) == 130);
    } else if i == 131 {
        assert(first_index_of(keyword_color(131)) == 131);
    } else if i == 132 {
        assert(first_index_of(keyword_color(132)) == 132);
    } else if i == 133 {
        assert(first_index_of(keyword_color(133)) == 132);
    } else if i == 134 {
        assert(first_index_of(keyword_color(134)) == 134);
    }
}

proof fn lemma_first_name_length_from_135(i: int)
    requires
        135 <= i < 149,
    ensures
        0 <= first_index_of(keyword_color(i as usize)) <= i,
        keyword_color(first_index_of(keyword_color(i as usize)) as usize) == keyword_color(i as usize),
        keyword_name(i as usize).len() == keyword_name(
            first_index_of(keyword_color(i as usize)) as usize,
        ).len(),
{
    if i == 135 {
        assert(first_index_of(keyword_color(135)) == 135);
    } else if i == 136 {
        assert(first_index_of(keyword_color(136)) == 136);
    } else if i == 137 {
        assert(first_index_of(keyword_color(137)) == 137);
    } else if i == 138 {
        assert(first_index_of(keyword_color(138)) == 138);
    } else if i == 139 {
        assert(first_index_of(keyword_color(139)) == 139);
    } else if i == 140 {
        assert(first_index_of(keyword_color(140)) == 140);
    } else if i == 141 {
        assert(first_index_of(keyword_color(141)) == 141);
    } else if i == 142 {
        assert(first_index_of(keyword_color(142)) == 142);
    } else if i == 143 {
        assert(first_index_of(keyword_color(143)) == 143);
    } else if i == 144 {
        assert(first_index_of(keyword_color(144)) == 144);
    } else if i == 145 {
        assert(first_index_of(keyword_color(145)) == 145);
    } else if i == 146 {
        assert(first_index_of(keyword_color(146)) == 146);
    } else if i == 147 {
        assert(first_index_of(keyword_color(147)) == 147);
    } else if i == 148 {
        assert(first_index_of(keyword_color(148)) == 148);
    }
}

} // verus!
