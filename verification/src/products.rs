//! What the product identifiers of Rich records stand for.

use vstd::prelude::*;
use crate::rich::RichRecord;

verus! {

/// The name of the tool with product identifier `product`, or the empty
/// string for an identifier that is not known.
pub open spec fn product_name(product: u16) -> Seq<char> {
    match product {
        0 => "Unknown"@,
        1 => "Import0"@,
        2 => "Linker510"@,
        3 => "Cvtomf510"@,
        4 => "Linker600"@,
        5 => "Cvtomf600"@,
        6 => "Cvtres500"@,
        7 => "Utc11_Basic"@,
        8 => "Utc11_C"@,
        9 => "Utc12_Basic"@,
        10 => "Utc12_C"@,
        11 => "Utc12_CPP"@,
        12 => "AliasObj60"@,
        13 => "VisualBasic60"@,
        14 => "Masm613"@,
        15 => "Masm710"@,
        16 => "Linker511"@,
        17 => "Cvtomf511"@,
        18 => "Masm614"@,
        19 => "Linker512"@,
        20 => "Cvtomf512"@,
        21 => "Utc12_C_Std"@,
        22 => "Utc12_CPP_Std"@,
        23 => "Utc12_C_Book"@,
        24 => "Utc12_CPP_Book"@,
        25 => "Implib700"@,
        26 => "Cvtomf700"@,
        27 => "Utc13_Basic"@,
        28 => "Utc13_C"@,
        29 => "Utc13_CPP"@,
        30 => "Linker610"@,
        31 => "Cvtomf610"@,
        32 => "Linker601"@,
        33 => "Cvtomf601"@,
        34 => "Utc12_1_Basic"@,
        35 => "Utc12_1_C"@,
        36 => "Utc12_1_CPP"@,
        37 => "Linker620"@,
        38 => "Cvtomf620"@,
        39 => "AliasObj70"@,
        40 => "Linker621"@,
        41 => "Cvtomf621"@,
        42 => "Masm615"@,
        43 => "Utc13_LTCG_C"@,
        44 => "Utc13_LTCG_CPP"@,
        45 => "Masm620"@,
        46 => "ILAsm100"@,
        47 => "Utc12_2_Basic"@,
        48 => "Utc12_2_C"@,
        49 => "Utc12_2_CPP"@,
        50 => "Utc12_2_C_Std"@,
        51 => "Utc12_2_CPP_Std"@,
        52 => "Utc12_2_C_Book"@,
        53 => "Utc12_2_CPP_Book"@,
        54 => "Implib622"@,
        55 => "Cvtomf622"@,
        56 => "Cvtres501"@,
        57 => "Utc13_C_Std"@,
        58 => "Utc13_CPP_Std"@,
        59 => "Cvtpgd1300"@,
        60 => "Linker622"@,
        61 => "Linker700"@,
        62 => "Export622"@,
        63 => "Export700"@,
        64 => "Masm700"@,
        65 => "Utc13_POGO_I_C"@,
        66 => "Utc13_POGO_I_CPP"@,
        67 => "Utc13_POGO_O_C"@,
        68 => "Utc13_POGO_O_CPP"@,
        69 => "Cvtres700"@,
        70 => "Cvtres710p"@,
        71 => "Linker710p"@,
        72 => "Cvtomf710p"@,
        73 => "Export710p"@,
        74 => "Implib710p"@,
        75 => "Masm710p"@,
        76 => "Utc1310p_C"@,
        77 => "Utc1310p_CPP"@,
        78 => "Utc1310p_C_Std"@,
        79 => "Utc1310p_CPP_Std"@,
        80 => "Utc1310p_LTCG_C"@,
        81 => "Utc1310p_LTCG_CPP"@,
        82 => "Utc1310p_POGO_I_C"@,
        83 => "Utc1310p_POGO_I_CPP"@,
        84 => "Utc1310p_POGO_O_C"@,
        85 => "Utc1310p_POGO_O_CPP"@,
        86 => "Linker624"@,
        87 => "Cvtomf624"@,
        88 => "Export624"@,
        89 => "Implib624"@,
        90 => "Linker710"@,
        91 => "Cvtomf710"@,
        92 => "Export710"@,
        93 => "Implib710"@,
        94 => "Cvtres710"@,
        95 => "Utc1310_C"@,
        96 => "Utc1310_CPP"@,
        97 => "Utc1310_C_Std"@,
        98 => "Utc1310_CPP_Std"@,
        99 => "Utc1310_LTCG_C"@,
        100 => "Utc1310_LTCG_CPP"@,
        101 => "Utc1310_POGO_I_C"@,
        102 => "Utc1310_POGO_I_CPP"@,
        103 => "Utc1310_POGO_O_C"@,
        104 => "Utc1310_POGO_O_CPP"@,
        105 => "AliasObj710"@,
        106 => "AliasObj710p"@,
        107 => "Cvtpgd1310"@,
        108 => "Cvtpgd1310p"@,
        109 => "Utc1400_C"@,
        110 => "Utc1400_CPP"@,
        111 => "Utc1400_C_Std"@,
        112 => "Utc1400_CPP_Std"@,
        113 => "Utc1400_LTCG_C"@,
        114 => "Utc1400_LTCG_CPP"@,
        115 => "Utc1400_POGO_I_C"@,
        116 => "Utc1400_POGO_I_CPP"@,
        117 => "Utc1400_POGO_O_C"@,
        118 => "Utc1400_POGO_O_CPP"@,
        119 => "Cvtpgd1400"@,
        120 => "Linker800"@,
        121 => "Cvtomf800"@,
        122 => "Export800"@,
        123 => "Implib800"@,
        124 => "Cvtres800"@,
        125 => "Masm800"@,
        126 => "AliasObj800"@,
        127 => "PhoenixPrerelease"@,
        128 => "Utc1400_CVTCIL_C"@,
        129 => "Utc1400_CVTCIL_CPP"@,
        130 => "Utc1400_LTCG_MSIL"@,
        131 => "Utc1500_C"@,
        132 => "Utc1500_CPP"@,
        133 => "Utc1500_C_Std"@,
        134 => "Utc1500_CPP_Std"@,
        135 => "Utc1500_CVTCIL_C"@,
        136 => "Utc1500_CVTCIL_CPP"@,
        137 => "Utc1500_LTCG_C"@,
        138 => "Utc1500_LTCG_CPP"@,
        139 => "Utc1500_LTCG_MSIL"@,
        140 => "Utc1500_POGO_I_C"@,
        141 => "Utc1500_POGO_I_CPP"@,
        142 => "Utc1500_POGO_O_C"@,
        143 => "Utc1500_POGO_O_CPP"@,
        144 => "Cvtpgd1500"@,
        145 => "Linker900"@,
        146 => "Export900"@,
        147 => "Implib900"@,
        148 => "Cvtres900"@,
        149 => "Masm900"@,
        150 => "AliasObj900"@,
        151 => "Resource900"@,
        152 => "AliasObj1000"@,
        154 => "Cvtres1000"@,
        155 => "Export1000"@,
        156 => "Implib1000"@,
        157 => "Linker1000"@,
        158 => "Masm1000"@,
        170 => "Utc1600_C"@,
        171 => "Utc1600_CPP"@,
        172 => "Utc1600_CVTCIL_C"@,
        173 => "Utc1600_CVTCIL_CPP"@,
        174 => "Utc1600_LTCG_C "@,
        175 => "Utc1600_LTCG_CPP"@,
        176 => "Utc1600_LTCG_MSIL"@,
        177 => "Utc1600_POGO_I_C"@,
        178 => "Utc1600_POGO_I_CPP"@,
        179 => "Utc1600_POGO_O_C"@,
        180 => "Utc1600_POGO_O_CPP"@,
        183 => "Linker1010"@,
        184 => "Export1010"@,
        185 => "Implib1010"@,
        186 => "Cvtres1010"@,
        187 => "Masm1010"@,
        188 => "AliasObj1010"@,
        199 => "AliasObj1100"@,
        201 => "Cvtres1100"@,
        202 => "Export1100"@,
        203 => "Implib1100"@,
        204 => "Linker1100"@,
        205 => "Masm1100"@,
        206 => "Utc1700_C"@,
        207 => "Utc1700_CPP"@,
        208 => "Utc1700_CVTCIL_C"@,
        209 => "Utc1700_CVTCIL_CPP"@,
        210 => "Utc1700_LTCG_C "@,
        211 => "Utc1700_LTCG_CPP"@,
        212 => "Utc1700_LTCG_MSIL"@,
        213 => "Utc1700_POGO_I_C"@,
        214 => "Utc1700_POGO_I_CPP"@,
        215 => "Utc1700_POGO_O_C"@,
        216 => "Utc1700_POGO_O_CPP"@,
        219 => "Cvtres1200"@,
        220 => "Export1200"@,
        221 => "Implib1200"@,
        222 => "Linker1200"@,
        223 => "Masm1200"@,
        224 => "AliasObj1200"@,
        237 => "Cvtres1210"@,
        238 => "Export1210"@,
        239 => "Implib1210"@,
        240 => "Linker1210"@,
        241 => "Masm1210"@,
        242 => "Utc1810_C"@,
        243 => "Utc1810_CPP"@,
        244 => "Utc1810_CVTCIL_C"@,
        245 => "Utc1810_CVTCIL_CPP"@,
        246 => "Utc1810_LTCG_C "@,
        247 => "Utc1810_LTCG_CPP"@,
        248 => "Utc1810_LTCG_MSIL"@,
        249 => "Utc1810_POGO_I_C"@,
        250 => "Utc1810_POGO_I_CPP"@,
        251 => "Utc1810_POGO_O_C"@,
        252 => "Utc1810_POGO_O_CPP"@,
        255 => "Cvtres1400"@,
        256 => "Export1400"@,
        257 => "Implib1400"@,
        258 => "Linker1400"@,
        259 => "Masm1400"@,
        260 => "Utc1900_C"@,
        261 => "Utc1900_CPP"@,
        262 => "Utc1900_CVTCIL_C"@,
        263 => "Utc1900_CVTCIL_CPP"@,
        264 => "Utc1900_LTCG_C "@,
        265 => "Utc1900_LTCG_CPP"@,
        266 => "Utc1900_LTCG_MSIL"@,
        267 => "Utc1900_POGO_I_C"@,
        268 => "Utc1900_POGO_I_CPP"@,
        269 => "Utc1900_POGO_O_C"@,
        270 => "Utc1900_POGO_O_CPP"@,
        _ => ""@,
    }
}

/// The release of Visual Studio that shipped the tool with product
/// identifier `p`, as far as the identifier tells.
pub open spec fn vs_version(p: u16) -> Seq<char> {
    if p == 1 {
        "Visual Studio"@
    } else if p == 0x2 || p == 0x6 || p == 0xc || p == 0xe {
        "Visual Studio 97 05.00"@
    } else if p == 0xa || p == 0xb || p == 0xd || p == 0x15 || p == 0x16 {
        "Visual Studio 6.0 06.00"@
    } else if 0x0019 <= p <= 0x0045 {
        "Visual Studio 2002 07.00"@
    } else if 0x005a <= p <= 0x006c {
        "Visual Studio 2003 07.10"@
    } else if 0x006d <= p <= 0x0082 {
        "Visual Studio 2005 08.00"@
    } else if 0x0106 <= p <= 0x010a {
        "Visual Studio 2017 14.01+"@
    } else if 0x00fd <= p <= 0x0105 {
        "Visual Studio 2015 14.00"@
    } else if 0x00eb <= p <= 0x00fc {
        "Visual Studio 2013 12.10"@
    } else if 0x00d9 <= p <= 0x00ea {
        "Visual Studio 2013 12.00"@
    } else if 0x00c7 <= p <= 0x00d8 {
        "Visual Studio 2012 11.00"@
    } else if 0x00b5 <= p <= 0x00c6 {
        "Visual Studio 2010 10.10"@
    } else if 0x0098 <= p <= 0x00b4 {
        "Visual Studio 2010 10.00"@
    } else if 0x0083 <= p <= 0x0097 {
        "Visual Studio 2008 09.00"@
    } else {
        "UNKN PRODUCT"@
    }
}

impl RichRecord {
    /// The release of Visual Studio that the record's tool shipped with.
    pub fn lookup_vs_version(&self) -> (r: &'static str)
        ensures
            r@ == vs_version(self.product),
    {
        let p: u16 = self.product;
        if p == 1 {
            "Visual Studio"
        } else if p == 0x2 || p == 0x6 || p == 0xc || p == 0xe {
            "Visual Studio 97 05.00"
        } else if p == 0xa || p == 0xb || p == 0xd || p == 0x15 || p == 0x16 {
            "Visual Studio 6.0 06.00"
        } else if 0x0019 <= p && p <= 0x0045 {
            "Visual Studio 2002 07.00"
        } else if 0x005a <= p && p <= 0x006c {
            "Visual Studio 2003 07.10"
        } else if 0x006d <= p && p <= 0x0082 {
            "Visual Studio 2005 08.00"
        } else if 0x0106 <= p && p <= 0x010a {
            "Visual Studio 2017 14.01+"
        } else if 0x00fd <= p && p <= 0x0105 {
            "Visual Studio 2015 14.00"
        } else if 0x00eb <= p && p <= 0x00fc {
            "Visual Studio 2013 12.10"
        } else if 0x00d9 <= p && p <= 0x00ea {
            "Visual Studio 2013 12.00"
        } else if 0x00c7 <= p && p <= 0x00d8 {
            "Visual Studio 2012 11.00"
        } else if 0x00b5 <= p && p <= 0x00c6 {
            "Visual Studio 2010 10.10"
        } else if 0x0098 <= p && p <= 0x00b4 {
            "Visual Studio 2010 10.00"
        } else if 0x0083 <= p && p <= 0x0097 {
            "Visual Studio 2008 09.00"
        } else {
            "UNKN PRODUCT"
        }
    }

    /// The name of the record's tool, or the empty string if it is not known.
    pub fn get_product_name(&self) -> (r: &'static str)
        ensures
            r@ == product_name(self.product),
    {
        match self.product {
            0 => "Unknown",
            1 => "Import0",
            2 => "Linker510",
            3 => "Cvtomf510",
            4 => "Linker600",
            5 => "Cvtomf600",
            6 => "Cvtres500",
            7 => "Utc11_Basic",
            8 => "Utc11_C",
            9 => "Utc12_Basic",
            10 => "Utc12_C",
            11 => "Utc12_CPP",
            12 => "AliasObj60",
            13 => "VisualBasic60",
            14 => "Masm613",
            15 => "Masm710",
            16 => "Linker511",
            17 => "Cvtomf511",
            18 => "Masm614",
            19 => "Linker512",
            20 => "Cvtomf512",
            21 => "Utc12_C_Std",
            22 => "Utc12_CPP_Std",
            23 => "Utc12_C_Book",
            24 => "Utc12_CPP_Book",
            25 => "Implib700",
            26 => "Cvtomf700",
            27 => "Utc13_Basic",
            28 => "Utc13_C",
            29 => "Utc13_CPP",
            30 => "Linker610",
            31 => "Cvtomf610",
            32 => "Linker601",
            33 => "Cvtomf601",
            34 => "Utc12_1_Basic",
            35 => "Utc12_1_C",
            36 => "Utc12_1_CPP",
            37 => "Linker620",
            38 => "Cvtomf620",
            39 => "AliasObj70",
            40 => "Linker621",
            41 => "Cvtomf621",
            42 => "Masm615",
            43 => "Utc13_LTCG_C",
            44 => "Utc13_LTCG_CPP",
            45 => "Masm620",
            46 => "ILAsm100",
            47 => "Utc12_2_Basic",
            48 => "Utc12_2_C",
            49 => "Utc12_2_CPP",
            50 => "Utc12_2_C_Std",
            51 => "Utc12_2_CPP_Std",
            52 => "Utc12_2_C_Book",
            53 => "Utc12_2_CPP_Book",
            54 => "Implib622",
            55 => "Cvtomf622",
            56 => "Cvtres501",
            57 => "Utc13_C_Std",
            58 => "Utc13_CPP_Std",
            59 => "Cvtpgd1300",
            60 => "Linker622",
            61 => "Linker700",
            62 => "Export622",
            63 => "Export700",
            64 => "Masm700",
            65 => "Utc13_POGO_I_C",
            66 => "Utc13_POGO_I_CPP",
            67 => "Utc13_POGO_O_C",
            68 => "Utc13_POGO_O_CPP",
            69 => "Cvtres700",
            70 => "Cvtres710p",
            71 => "Linker710p",
            72 => "Cvtomf710p",
            73 => "Export710p",
            74 => "Implib710p",
            75 => "Masm710p",
            76 => "Utc1310p_C",
            77 => "Utc1310p_CPP",
            78 => "Utc1310p_C_Std",
            79 => "Utc1310p_CPP_Std",
            80 => "Utc1310p_LTCG_C",
            81 => "Utc1310p_LTCG_CPP",
            82 => "Utc1310p_POGO_I_C",
            83 => "Utc1310p_POGO_I_CPP",
            84 => "Utc1310p_POGO_O_C",
            85 => "Utc1310p_POGO_O_CPP",
            86 => "Linker624",
            87 => "Cvtomf624",
            88 => "Export624",
            89 => "Implib624",
            90 => "Linker710",
            91 => "Cvtomf710",
            92 => "Export710",
            93 => "Implib710",
            94 => "Cvtres710",
            95 => "Utc1310_C",
            96 => "Utc1310_CPP",
            97 => "Utc1310_C_Std",
            98 => "Utc1310_CPP_Std",
            99 => "Utc1310_LTCG_C",
            100 => "Utc1310_LTCG_CPP",
            101 => "Utc1310_POGO_I_C",
            102 => "Utc1310_POGO_I_CPP",
            103 => "Utc1310_POGO_O_C",
            104 => "Utc1310_POGO_O_CPP",
            105 => "AliasObj710",
            106 => "AliasObj710p",
            107 => "Cvtpgd1310",
            108 => "Cvtpgd1310p",
            109 => "Utc1400_C",
            110 => "Utc1400_CPP",
            111 => "Utc1400_C_Std",
            112 => "Utc1400_CPP_Std",
            113 => "Utc1400_LTCG_C",
            114 => "Utc1400_LTCG_CPP",
            115 => "Utc1400_POGO_I_C",
            116 => "Utc1400_POGO_I_CPP",
            117 => "Utc1400_POGO_O_C",
            118 => "Utc1400_POGO_O_CPP",
            119 => "Cvtpgd1400",
            120 => "Linker800",
            121 => "Cvtomf800",
            122 => "Export800",
            123 => "Implib800",
            124 => "Cvtres800",
            125 => "Masm800",
            126 => "AliasObj800",
            127 => "PhoenixPrerelease",
            128 => "Utc1400_CVTCIL_C",
            129 => "Utc1400_CVTCIL_CPP",
            130 => "Utc1400_LTCG_MSIL",
            131 => "Utc1500_C",
            132 => "Utc1500_CPP",
            133 => "Utc1500_C_Std",
            134 => "Utc1500_CPP_Std",
            135 => "Utc1500_CVTCIL_C",
            136 => "Utc1500_CVTCIL_CPP",
            137 => "Utc1500_LTCG_C",
            138 => "Utc1500_LTCG_CPP",
            139 => "Utc1500_LTCG_MSIL",
            140 => "Utc1500_POGO_I_C",
            141 => "Utc1500_POGO_I_CPP",
            142 => "Utc1500_POGO_O_C",
            143 => "Utc1500_POGO_O_CPP",
            144 => "Cvtpgd1500",
            145 => "Linker900",
            146 => "Export900",
            147 => "Implib900",
            148 => "Cvtres900",
            149 => "Masm900",
            150 => "AliasObj900",
            151 => "Resource900",
            152 => "AliasObj1000",
            154 => "Cvtres1000",
            155 => "Export1000",
            156 => "Implib1000",
            157 => "Linker1000",
            158 => "Masm1000",
            170 => "Utc1600_C",
            171 => "Utc1600_CPP",
            172 => "Utc1600_CVTCIL_C",
            173 => "Utc1600_CVTCIL_CPP",
            174 => "Utc1600_LTCG_C ",
            175 => "Utc1600_LTCG_CPP",
            176 => "Utc1600_LTCG_MSIL",
            177 => "Utc1600_POGO_I_C",
            178 => "Utc1600_POGO_I_CPP",
            179 => "Utc1600_POGO_O_C",
            180 => "Utc1600_POGO_O_CPP",
            183 => "Linker1010",
            184 => "Export1010",
            185 => "Implib1010",
            186 => "Cvtres1010",
            187 => "Masm1010",
            188 => "AliasObj1010",
            199 => "AliasObj1100",
            201 => "Cvtres1100",
            202 => "Export1100",
            203 => "Implib1100",
            204 => "Linker1100",
            205 => "Masm1100",
            206 => "Utc1700_C",
            207 => "Utc1700_CPP",
            208 => "Utc1700_CVTCIL_C",
            209 => "Utc1700_CVTCIL_CPP",
            210 => "Utc1700_LTCG_C ",
            211 => "Utc1700_LTCG_CPP",
            212 => "Utc1700_LTCG_MSIL",
            213 => "Utc1700_POGO_I_C",
            214 => "Utc1700_POGO_I_CPP",
            215 => "Utc1700_POGO_O_C",
            216 => "Utc1700_POGO_O_CPP",
            219 => "Cvtres1200",
            220 => "Export1200",
            221 => "Implib1200",
            222 => "Linker1200",
            223 => "Masm1200",
            224 => "AliasObj1200",
            237 => "Cvtres1210",
            238 => "Export1210",
            239 => "Implib1210",
            240 => "Linker1210",
            241 => "Masm1210",
            242 => "Utc1810_C",
            243 => "Utc1810_CPP",
            244 => "Utc1810_CVTCIL_C",
            245 => "Utc1810_CVTCIL_CPP",
            246 => "Utc1810_LTCG_C ",
            247 => "Utc1810_LTCG_CPP",
            248 => "Utc1810_LTCG_MSIL",
            249 => "Utc1810_POGO_I_C",
            250 => "Utc1810_POGO_I_CPP",
            251 => "Utc1810_POGO_O_C",
            252 => "Utc1810_POGO_O_CPP",
            255 => "Cvtres1400",
            256 => "Export1400",
            257 => "Implib1400",
            258 => "Linker1400",
            259 => "Masm1400",
            260 => "Utc1900_C",
            261 => "Utc1900_CPP",
            262 => "Utc1900_CVTCIL_C",
            263 => "Utc1900_CVTCIL_CPP",
            264 => "Utc1900_LTCG_C ",
            265 => "Utc1900_LTCG_CPP",
            266 => "Utc1900_LTCG_MSIL",
            267 => "Utc1900_POGO_I_C",
            268 => "Utc1900_POGO_I_CPP",
            269 => "Utc1900_POGO_O_C",
            270 => "Utc1900_POGO_O_CPP",
            _ => "",
        }
    }
}

/// Defines the kinds of objects.
///
/// Rich records can identify the product used and with it the language of
/// the objects.
#[derive(Copy, Clone, Debug, PartialEq, Eq, Structural)]
pub enum ObjectKind {
    Unknown,
    Link,
    /// Exported symbol.
    Export,
    /// Imported symbol.
    Import,
    /// Resource object.
    Resource,
    /// Assembly object.
    Assembly,
    /// C++ object.
    CPP,
    /// C object.
    C,
}

impl ObjectKind {
    /// The kind of object that the tool with product identifier `p` makes.
    pub open spec fn of(p: u16) -> ObjectKind {
        if p == 0x00ff || p == 0x00c9 || p == 0x009a || p == 0x007c || p == 0x005e || p == 0x0045
            || p == 0x0006 {
            ObjectKind::Resource
        } else if p == 0x0100 || p == 0x00dc || p == 0x00ca || p == 0x009b || p == 0x0092 || p
            == 0x007a || p == 0x005c || p == 0x003f {
            ObjectKind::Export
        } else if p == 0x0101 || p == 0x00dd || p == 0x00cb || p == 0x009c || p == 0x0093 || p
            == 0x007b || p == 0x005d || p == 0x0019 || p == 0x0002 || p == 0x0001 {
            ObjectKind::Import
        } else if p == 0x0102 || p == 0x00de || p == 0x00cc || p == 0x009d || p == 0x0091 || p
            == 0x0078 || p == 0x005a || p == 0x003d || p == 0x0004 {
            ObjectKind::Link
        } else if p == 0x0103 || p == 0x00df || p == 0x00cd || p == 0x009e || p == 0x0095 || p
            == 0x007d || p == 0x000f || p == 0x0040 {
            ObjectKind::Assembly
        } else if p == 0x0104 || p == 0x00e0 || p == 0x00ce || p == 0x00aa || p == 0x0083 || p
            == 0x006d || p == 0x005f || p == 0x001c || p == 0x000a || p == 0x0015 {
            ObjectKind::C
        } else if p == 0x0105 || p == 0x00e1 || p == 0x00cf || p == 0x00ab || p == 0x0084 || p
            == 0x006e || p == 0x0060 || p == 0x001d || p == 0x000b || p == 0x0016 {
            ObjectKind::CPP
        } else {
            ObjectKind::Unknown
        }
    }
}

impl From<u16> for ObjectKind {
    fn from(product: u16) -> (r: ObjectKind) {
        match product {
            0x00ff | 0x00c9 | 0x009a | 0x007c | 0x005e | 0x0045 | 0x0006 => ObjectKind::Resource,
            0x0100 | 0x00dc | 0x00ca | 0x009b | 0x0092 | 0x007a | 0x005c | 0x003f => {
                ObjectKind::Export
            },
            0x0101 | 0x00dd | 0x00cb | 0x009c | 0x0093 | 0x007b | 0x005d | 0x0019 | 0x0002 => {
                ObjectKind::Import
            },
            0x0102 | 0x00de | 0x00cc | 0x009d | 0x0091 | 0x0078 | 0x005a | 0x003d | 0x0004 => {
                ObjectKind::Link
            },
            0x0103 | 0x00df | 0x00cd | 0x009e | 0x0095 | 0x007d | 0x000f | 0x0040 => {
                ObjectKind::Assembly
            },
            0x0104 | 0x00e0 | 0x00ce | 0x00aa | 0x0083 | 0x006d | 0x005f | 0x001c | 0x000a
            | 0x0015 => ObjectKind::C,
            0x0105 | 0x00e1 | 0x00cf | 0x00ab | 0x0084 | 0x006e | 0x0060 | 0x001d | 0x000b
            | 0x0016 => ObjectKind::CPP,
            0x0001 => ObjectKind::Import,
            _ => ObjectKind::Unknown,
        }
    }
}

impl vstd::std_specs::convert::FromSpecImpl<u16> for ObjectKind {
    open spec fn obeys_from_spec() -> bool {
        true
    }

    open spec fn from_spec(product: u16) -> ObjectKind {
        ObjectKind::of(product)
    }
}

} // verus!
