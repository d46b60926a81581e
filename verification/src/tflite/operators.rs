//! The names of TFLite's builtin operators, and how they are shown.
use vstd::prelude::*;
use vstd::string::StringExecFns;
use crate::chars::{ascii_lowercase, split, str_ascii_lowercase, str_split, str_views};
use crate::fmt::{decimal, i64_to_string};
use crate::text::{chars_string, str_chars, str_eq};
use crate::tflite::tables::{OperatorCode, OperatorCodeView};

verus! {

/// The code of the builtin operator that the TFLite schema's
/// `BuiltinOperator` enum names `name`.
pub open spec fn builtin_operator_code(name: Seq<char>) -> Option<i32> {
    if name == "ABS"@ {
        Some(101)
    } else if name == "ADD"@ {
        Some(0)
    } else if name == "ADD_N"@ {
        Some(106)
    } else if name == "ARG_MAX"@ {
        Some(56)
    } else if name == "ARG_MIN"@ {
        Some(79)
    } else if name == "ASSIGN_VARIABLE"@ {
        Some(144)
    } else if name == "ATAN2"@ {
        Some(156)
    } else if name == "AVERAGE_POOL_2D"@ {
        Some(1)
    } else if name == "BATCH_MATMUL"@ {
        Some(126)
    } else if name == "BATCH_TO_SPACE_ND"@ {
        Some(37)
    } else if name == "BIDIRECTIONAL_SEQUENCE_LSTM"@ {
        Some(52)
    } else if name == "BIDIRECTIONAL_SEQUENCE_RNN"@ {
        Some(46)
    } else if name == "BITCAST"@ {
        Some(159)
    } else if name == "BITWISE_XOR"@ {
        Some(160)
    } else if name == "BROADCAST_ARGS"@ {
        Some(145)
    } else if name == "BROADCAST_TO"@ {
        Some(130)
    } else if name == "BUCKETIZE"@ {
        Some(147)
    } else if name == "CALL"@ {
        Some(31)
    } else if name == "CALL_ONCE"@ {
        Some(129)
    } else if name == "CAST"@ {
        Some(53)
    } else if name == "CEIL"@ {
        Some(104)
    } else if name == "COMPLEX_ABS"@ {
        Some(135)
    } else if name == "CONCATENATION"@ {
        Some(2)
    } else if name == "CONCAT_EMBEDDINGS"@ {
        Some(29)
    } else if name == "CONV_2D"@ {
        Some(3)
    } else if name == "CONV_3D"@ {
        Some(132)
    } else if name == "CONV_3D_TRANSPOSE"@ {
        Some(141)
    } else if name == "COS"@ {
        Some(108)
    } else if name == "CUMSUM"@ {
        Some(128)
    } else if name == "CUSTOM"@ {
        Some(32)
    } else if name == "DELEGATE"@ {
        Some(51)
    } else if name == "DENSIFY"@ {
        Some(124)
    } else if name == "DEPTHWISE_CONV_2D"@ {
        Some(4)
    } else if name == "DEPTH_TO_SPACE"@ {
        Some(5)
    } else if name == "DEQUANTIZE"@ {
        Some(6)
    } else if name == "DILATE"@ {
        Some(203)
    } else if name == "DIV"@ {
        Some(42)
    } else if name == "DYNAMIC_UPDATE_SLICE"@ {
        Some(151)
    } else if name == "ELU"@ {
        Some(111)
    } else if name == "EMBEDDING_LOOKUP"@ {
        Some(7)
    } else if name == "EMBEDDING_LOOKUP_SPARSE"@ {
        Some(33)
    } else if name == "EQUAL"@ {
        Some(71)
    } else if name == "EXP"@ {
        Some(47)
    } else if name == "EXPAND_DIMS"@ {
        Some(70)
    } else if name == "FAKE_QUANT"@ {
        Some(80)
    } else if name == "FILL"@ {
        Some(94)
    } else if name == "FLOOR"@ {
        Some(8)
    } else if name == "FLOOR_DIV"@ {
        Some(90)
    } else if name == "FLOOR_MOD"@ {
        Some(95)
    } else if name == "FULLY_CONNECTED"@ {
        Some(9)
    } else if name == "GATHER"@ {
        Some(36)
    } else if name == "GATHER_ND"@ {
        Some(107)
    } else if name == "GELU"@ {
        Some(150)
    } else if name == "GREATER"@ {
        Some(61)
    } else if name == "GREATER_EQUAL"@ {
        Some(62)
    } else if name == "HARD_SWISH"@ {
        Some(117)
    } else if name == "HASHTABLE"@ {
        Some(136)
    } else if name == "HASHTABLE_FIND"@ {
        Some(137)
    } else if name == "HASHTABLE_IMPORT"@ {
        Some(138)
    } else if name == "HASHTABLE_LOOKUP"@ {
        Some(10)
    } else if name == "HASHTABLE_SIZE"@ {
        Some(139)
    } else if name == "IF"@ {
        Some(118)
    } else if name == "IMAG"@ {
        Some(133)
    } else if name == "L2_NORMALIZATION"@ {
        Some(11)
    } else if name == "L2_POOL_2D"@ {
        Some(12)
    } else if name == "LEAKY_RELU"@ {
        Some(98)
    } else if name == "LESS"@ {
        Some(58)
    } else if name == "LESS_EQUAL"@ {
        Some(63)
    } else if name == "LOCAL_RESPONSE_NORMALIZATION"@ {
        Some(13)
    } else if name == "LOG"@ {
        Some(73)
    } else if name == "LOGICAL_AND"@ {
        Some(86)
    } else if name == "LOGICAL_NOT"@ {
        Some(87)
    } else if name == "LOGICAL_OR"@ {
        Some(84)
    } else if name == "LOGISTIC"@ {
        Some(14)
    } else if name == "LOG_SOFTMAX"@ {
        Some(50)
    } else if name == "LSH_PROJECTION"@ {
        Some(15)
    } else if name == "LSTM"@ {
        Some(16)
    } else if name == "MATRIX_DIAG"@ {
        Some(113)
    } else if name == "MATRIX_SET_DIAG"@ {
        Some(115)
    } else if name == "MAXIMUM"@ {
        Some(55)
    } else if name == "MAX_POOL_2D"@ {
        Some(17)
    } else if name == "MEAN"@ {
        Some(40)
    } else if name == "MINIMUM"@ {
        Some(57)
    } else if name == "MIRROR_PAD"@ {
        Some(100)
    } else if name == "MUL"@ {
        Some(18)
    } else if name == "MULTINOMIAL"@ {
        Some(149)
    } else if name == "NEG"@ {
        Some(59)
    } else if name == "NON_MAX_SUPPRESSION_V4"@ {
        Some(120)
    } else if name == "NON_MAX_SUPPRESSION_V5"@ {
        Some(121)
    } else if name == "NOT_EQUAL"@ {
        Some(72)
    } else if name == "ONE_HOT"@ {
        Some(85)
    } else if name == "PACK"@ {
        Some(83)
    } else if name == "PAD"@ {
        Some(34)
    } else if name == "PADV2"@ {
        Some(60)
    } else if name == "PLACEHOLDER_FOR_GREATER_OP_CODES"@ {
        Some(127)
    } else if name == "POW"@ {
        Some(78)
    } else if name == "PRELU"@ {
        Some(54)
    } else if name == "QUANTIZE"@ {
        Some(114)
    } else if name == "RANDOM_STANDARD_NORMAL"@ {
        Some(146)
    } else if name == "RANDOM_UNIFORM"@ {
        Some(148)
    } else if name == "RANGE"@ {
        Some(96)
    } else if name == "RANK"@ {
        Some(110)
    } else if name == "READ_VARIABLE"@ {
        Some(143)
    } else if name == "REAL"@ {
        Some(134)
    } else if name == "REDUCE_ALL"@ {
        Some(140)
    } else if name == "REDUCE_ANY"@ {
        Some(91)
    } else if name == "REDUCE_MAX"@ {
        Some(82)
    } else if name == "REDUCE_MIN"@ {
        Some(89)
    } else if name == "REDUCE_PROD"@ {
        Some(81)
    } else if name == "REDUCE_WINDOW"@ {
        Some(205)
    } else if name == "RELU"@ {
        Some(19)
    } else if name == "RELU6"@ {
        Some(21)
    } else if name == "RELU_0_TO_1"@ {
        Some(152)
    } else if name == "RELU_N1_TO_1"@ {
        Some(20)
    } else if name == "RESHAPE"@ {
        Some(22)
    } else if name == "RESIZE_BILINEAR"@ {
        Some(23)
    } else if name == "RESIZE_NEAREST_NEIGHBOR"@ {
        Some(97)
    } else if name == "REVERSE_SEQUENCE"@ {
        Some(112)
    } else if name == "REVERSE_V2"@ {
        Some(105)
    } else if name == "RFFT2D"@ {
        Some(131)
    } else if name == "RIGHT_SHIFT"@ {
        Some(161)
    } else if name == "RNN"@ {
        Some(24)
    } else if name == "ROUND"@ {
        Some(116)
    } else if name == "RSQRT"@ {
        Some(76)
    } else if name == "SCATTER_ND"@ {
        Some(122)
    } else if name == "SEGMENT_SUM"@ {
        Some(125)
    } else if name == "SELECT"@ {
        Some(64)
    } else if name == "SELECT_V2"@ {
        Some(123)
    } else if name == "SHAPE"@ {
        Some(77)
    } else if name == "SIGN"@ {
        Some(158)
    } else if name == "SIN"@ {
        Some(66)
    } else if name == "SKIP_GRAM"@ {
        Some(30)
    } else if name == "SLICE"@ {
        Some(65)
    } else if name == "SOFTMAX"@ {
        Some(25)
    } else if name == "SPACE_TO_BATCH_ND"@ {
        Some(38)
    } else if name == "SPACE_TO_DEPTH"@ {
        Some(26)
    } else if name == "SPARSE_TO_DENSE"@ {
        Some(68)
    } else if name == "SPLIT"@ {
        Some(49)
    } else if name == "SPLIT_V"@ {
        Some(102)
    } else if name == "SQRT"@ {
        Some(75)
    } else if name == "SQUARE"@ {
        Some(92)
    } else if name == "SQUARED_DIFFERENCE"@ {
        Some(99)
    } else if name == "SQUEEZE"@ {
        Some(43)
    } else if name == "STABLEHLO_ABS"@ {
        Some(175)
    } else if name == "STABLEHLO_ADD"@ {
        Some(163)
    } else if name == "STABLEHLO_AND"@ {
        Some(176)
    } else if name == "STABLEHLO_BROADCAST_IN_DIM"@ {
        Some(170)
    } else if name == "STABLEHLO_CASE"@ {
        Some(209)
    } else if name == "STABLEHLO_CBRT"@ {
        Some(208)
    } else if name == "STABLEHLO_CLAMP"@ {
        Some(168)
    } else if name == "STABLEHLO_COMPARE"@ {
        Some(191)
    } else if name == "STABLEHLO_COMPOSITE"@ {
        Some(206)
    } else if name == "STABLEHLO_CONCATENATE"@ {
        Some(169)
    } else if name == "STABLEHLO_CONVERT"@ {
        Some(192)
    } else if name == "STABLEHLO_CONVOLUTION"@ {
        Some(171)
    } else if name == "STABLEHLO_COSINE"@ {
        Some(177)
    } else if name == "STABLEHLO_CUSTOM_CALL"@ {
        Some(173)
    } else if name == "STABLEHLO_DIVIDE"@ {
        Some(164)
    } else if name == "STABLEHLO_DOT_GENERAL"@ {
        Some(197)
    } else if name == "STABLEHLO_DYNAMIC_SLICE"@ {
        Some(193)
    } else if name == "STABLEHLO_DYNAMIC_UPDATE_SLICE"@ {
        Some(194)
    } else if name == "STABLEHLO_EXPONENTIAL"@ {
        Some(178)
    } else if name == "STABLEHLO_FLOOR"@ {
        Some(179)
    } else if name == "STABLEHLO_GATHER"@ {
        Some(201)
    } else if name == "STABLEHLO_IOTA"@ {
        Some(196)
    } else if name == "STABLEHLO_LOG"@ {
        Some(180)
    } else if name == "STABLEHLO_LOGISTIC"@ {
        Some(162)
    } else if name == "STABLEHLO_MAXIMUM"@ {
        Some(166)
    } else if name == "STABLEHLO_MINIMUM"@ {
        Some(181)
    } else if name == "STABLEHLO_MULTIPLY"@ {
        Some(165)
    } else if name == "STABLEHLO_NEGATE"@ {
        Some(182)
    } else if name == "STABLEHLO_OR"@ {
        Some(183)
    } else if name == "STABLEHLO_PAD"@ {
        Some(195)
    } else if name == "STABLEHLO_POWER"@ {
        Some(184)
    } else if name == "STABLEHLO_REDUCE"@ {
        Some(174)
    } else if name == "STABLEHLO_REDUCE_WINDOW"@ {
        Some(198)
    } else if name == "STABLEHLO_REMAINDER"@ {
        Some(185)
    } else if name == "STABLEHLO_RESHAPE"@ {
        Some(167)
    } else if name == "STABLEHLO_RNG_BIT_GENERATOR"@ {
        Some(204)
    } else if name == "STABLEHLO_RSQRT"@ {
        Some(186)
    } else if name == "STABLEHLO_SCATTER"@ {
        Some(190)
    } else if name == "STABLEHLO_SELECT"@ {
        Some(187)
    } else if name == "STABLEHLO_SHIFT_LEFT"@ {
        Some(207)
    } else if name == "STABLEHLO_SLICE"@ {
        Some(172)
    } else if name == "STABLEHLO_SORT"@ {
        Some(199)
    } else if name == "STABLEHLO_SUBTRACT"@ {
        Some(188)
    } else if name == "STABLEHLO_TANH"@ {
        Some(189)
    } else if name == "STABLEHLO_TRANSPOSE"@ {
        Some(202)
    } else if name == "STABLEHLO_WHILE"@ {
        Some(200)
    } else if name == "STRIDED_SLICE"@ {
        Some(45)
    } else if name == "SUB"@ {
        Some(41)
    } else if name == "SUM"@ {
        Some(74)
    } else if name == "SVDF"@ {
        Some(27)
    } else if name == "TANH"@ {
        Some(28)
    } else if name == "TILE"@ {
        Some(69)
    } else if name == "TOPK_V2"@ {
        Some(48)
    } else if name == "TRANSPOSE"@ {
        Some(39)
    } else if name == "TRANSPOSE_CONV"@ {
        Some(67)
    } else if name == "UNIDIRECTIONAL_SEQUENCE_LSTM"@ {
        Some(44)
    } else if name == "UNIDIRECTIONAL_SEQUENCE_RNN"@ {
        Some(35)
    } else if name == "UNIQUE"@ {
        Some(103)
    } else if name == "UNPACK"@ {
        Some(88)
    } else if name == "UNSORTED_SEGMENT_MAX"@ {
        Some(154)
    } else if name == "UNSORTED_SEGMENT_MIN"@ {
        Some(157)
    } else if name == "UNSORTED_SEGMENT_PROD"@ {
        Some(153)
    } else if name == "UNSORTED_SEGMENT_SUM"@ {
        Some(155)
    } else if name == "VAR_HANDLE"@ {
        Some(142)
    } else if name == "WHERE"@ {
        Some(109)
    } else if name == "WHILE"@ {
        Some(119)
    } else if name == "ZEROS_LIKE"@ {
        Some(93)
    } else {
        None
    }
}

/// Each builtin operator code is named as the schema's `BuiltinOperator`
/// enum names it: the code that the schema gives a name is named by that
/// name (code 0 is `ADD`), so no two of the schema's codes share a name.
#[verifier::rlimit(50)]
pub proof fn lemma_builtin_operator_named(name: Seq<char>)
    ensures
        builtin_operator_code(name) matches Some(c) ==> spec_builtin_operator_name(c) == Some(name),
{
}

/// The schema numbers its builtin operators from 0 to 209 without a gap:
/// exactly those codes have a name.
pub proof fn lemma_builtin_operator_codes(c: i32)
    ensures
        spec_builtin_operator_name(c) is Some <==> 0 <= c < 210,
{
}

/// The schema's name of builtin operator `value`.
pub open spec fn spec_builtin_operator_name(value: i32) -> Option<Seq<char>> {
    match value {
        0 => Some("ADD"@),
        1 => Some("AVERAGE_POOL_2D"@),
        2 => Some("CONCATENATION"@),
        3 => Some("CONV_2D"@),
        4 => Some("DEPTHWISE_CONV_2D"@),
        5 => Some("DEPTH_TO_SPACE"@),
        6 => Some("DEQUANTIZE"@),
        7 => Some("EMBEDDING_LOOKUP"@),
        8 => Some("FLOOR"@),
        9 => Some("FULLY_CONNECTED"@),
        10 => Some("HASHTABLE_LOOKUP"@),
        11 => Some("L2_NORMALIZATION"@),
        12 => Some("L2_POOL_2D"@),
        13 => Some("LOCAL_RESPONSE_NORMALIZATION"@),
        14 => Some("LOGISTIC"@),
        15 => Some("LSH_PROJECTION"@),
        16 => Some("LSTM"@),
        17 => Some("MAX_POOL_2D"@),
        18 => Some("MUL"@),
        19 => Some("RELU"@),
        20 => Some("RELU_N1_TO_1"@),
        21 => Some("RELU6"@),
        22 => Some("RESHAPE"@),
        23 => Some("RESIZE_BILINEAR"@),
        24 => Some("RNN"@),
        25 => Some("SOFTMAX"@),
        26 => Some("SPACE_TO_DEPTH"@),
        27 => Some("SVDF"@),
        28 => Some("TANH"@),
        29 => Some("CONCAT_EMBEDDINGS"@),
        30 => Some("SKIP_GRAM"@),
        31 => Some("CALL"@),
        32 => Some("CUSTOM"@),
        33 => Some("EMBEDDING_LOOKUP_SPARSE"@),
        34 => Some("PAD"@),
        35 => Some("UNIDIRECTIONAL_SEQUENCE_RNN"@),
        36 => Some("GATHER"@),
        37 => Some("BATCH_TO_SPACE_ND"@),
        38 => Some("SPACE_TO_BATCH_ND"@),
        39 => Some("TRANSPOSE"@),
        40 => Some("MEAN"@),
        41 => Some("SUB"@),
        42 => Some("DIV"@),
        43 => Some("SQUEEZE"@),
        44 => Some("UNIDIRECTIONAL_SEQUENCE_LSTM"@),
        45 => Some("STRIDED_SLICE"@),
        46 => Some("BIDIRECTIONAL_SEQUENCE_RNN"@),
        47 => Some("EXP"@),
        48 => Some("TOPK_V2"@),
        49 => Some("SPLIT"@),
        50 => Some("LOG_SOFTMAX"@),
        51 => Some("DELEGATE"@),
        52 => Some("BIDIRECTIONAL_SEQUENCE_LSTM"@),
        53 => Some("CAST"@),
        54 => Some("PRELU"@),
        55 => Some("MAXIMUM"@),
        56 => Some("ARG_MAX"@),
        57 => Some("MINIMUM"@),
        58 => Some("LESS"@),
        59 => Some("NEG"@),
        60 => Some("PADV2"@),
        61 => Some("GREATER"@),
        62 => Some("GREATER_EQUAL"@),
        63 => Some("LESS_EQUAL"@),
        64 => Some("SELECT"@),
        65 => Some("SLICE"@),
        66 => Some("SIN"@),
        67 => Some("TRANSPOSE_CONV"@),
        68 => Some("SPARSE_TO_DENSE"@),
        69 => Some("TILE"@),
        70 => Some("EXPAND_DIMS"@),
        71 => Some("EQUAL"@),
        72 => Some("NOT_EQUAL"@),
        73 => Some("LOG"@),
        74 => Some("SUM"@),
        75 => Some("SQRT"@),
        76 => Some("RSQRT"@),
        77 => Some("SHAPE"@),
        78 => Some("POW"@),
        79 => Some("ARG_MIN"@),
        80 => Some("FAKE_QUANT"@),
        81 => Some("REDUCE_PROD"@),
        82 => Some("REDUCE_MAX"@),
        83 => Some("PACK"@),
        84 => Some("LOGICAL_OR"@),
        85 => Some("ONE_HOT"@),
        86 => Some("LOGICAL_AND"@),
        87 => Some("LOGICAL_NOT"@),
        88 => Some("UNPACK"@),
        89 => Some("REDUCE_MIN"@),
        90 => Some("FLOOR_DIV"@),
        91 => Some("REDUCE_ANY"@),
        92 => Some("SQUARE"@),
        93 => Some("ZEROS_LIKE"@),
        94 => Some("FILL"@),
        95 => Some("FLOOR_MOD"@),
        96 => Some("RANGE"@),
        97 => Some("RESIZE_NEAREST_NEIGHBOR"@),
        98 => Some("LEAKY_RELU"@),
        99 => Some("SQUARED_DIFFERENCE"@),
        100 => Some("MIRROR_PAD"@),
        101 => Some("ABS"@),
        102 => Some("SPLIT_V"@),
        103 => Some("UNIQUE"@),
        104 => Some("CEIL"@),
        105 => Some("REVERSE_V2"@),
        106 => Some("ADD_N"@),
        107 => Some("GATHER_ND"@),
        108 => Some("COS"@),
        109 => Some("WHERE"@),
        110 => Some("RANK"@),
        111 => Some("ELU"@),
        112 => Some("REVERSE_SEQUENCE"@),
        113 => Some("MATRIX_DIAG"@),
        114 => Some("QUANTIZE"@),
        115 => Some("MATRIX_SET_DIAG"@),
        116 => Some("ROUND"@),
        117 => Some("HARD_SWISH"@),
        118 => Some("IF"@),
        119 => Some("WHILE"@),
        120 => Some("NON_MAX_SUPPRESSION_V4"@),
        121 => Some("NON_MAX_SUPPRESSION_V5"@),
        122 => Some("SCATTER_ND"@),
        123 => Some("SELECT_V2"@),
        124 => Some("DENSIFY"@),
        125 => Some("SEGMENT_SUM"@),
        126 => Some("BATCH_MATMUL"@),
        127 => Some("PLACEHOLDER_FOR_GREATER_OP_CODES"@),
        128 => Some("CUMSUM"@),
        129 => Some("CALL_ONCE"@),
        130 => Some("BROADCAST_TO"@),
        131 => Some("RFFT2D"@),
        132 => Some("CONV_3D"@),
        133 => Some("IMAG"@),
        134 => Some("REAL"@),
        135 => Some("COMPLEX_ABS"@),
        136 => Some("HASHTABLE"@),
        137 => Some("HASHTABLE_FIND"@),
        138 => Some("HASHTABLE_IMPORT"@),
        139 => Some("HASHTABLE_SIZE"@),
        140 => Some("REDUCE_ALL"@),
        141 => Some("CONV_3D_TRANSPOSE"@),
        142 => Some("VAR_HANDLE"@),
        143 => Some("READ_VARIABLE"@),
        144 => Some("ASSIGN_VARIABLE"@),
        145 => Some("BROADCAST_ARGS"@),
        146 => Some("RANDOM_STANDARD_NORMAL"@),
        147 => Some("BUCKETIZE"@),
        148 => Some("RANDOM_UNIFORM"@),
        149 => Some("MULTINOMIAL"@),
        150 => Some("GELU"@),
        151 => Some("DYNAMIC_UPDATE_SLICE"@),
        152 => Some("RELU_0_TO_1"@),
        153 => Some("UNSORTED_SEGMENT_PROD"@),
        154 => Some("UNSORTED_SEGMENT_MAX"@),
        155 => Some("UNSORTED_SEGMENT_SUM"@),
        156 => Some("ATAN2"@),
        157 => Some("UNSORTED_SEGMENT_MIN"@),
        158 => Some("SIGN"@),
        159 => Some("BITCAST"@),
        160 => Some("BITWISE_XOR"@),
        161 => Some("RIGHT_SHIFT"@),
        162 => Some("STABLEHLO_LOGISTIC"@),
        163 => Some("STABLEHLO_ADD"@),
        164 => Some("STABLEHLO_DIVIDE"@),
        165 => Some("STABLEHLO_MULTIPLY"@),
        166 => Some("STABLEHLO_MAXIMUM"@),
        167 => Some("STABLEHLO_RESHAPE"@),
        168 => Some("STABLEHLO_CLAMP"@),
        169 => Some("STABLEHLO_CONCATENATE"@),
        170 => Some("STABLEHLO_BROADCAST_IN_DIM"@),
        171 => Some("STABLEHLO_CONVOLUTION"@),
        172 => Some("STABLEHLO_SLICE"@),
        173 => Some("STABLEHLO_CUSTOM_CALL"@),
        174 => Some("STABLEHLO_REDUCE"@),
        175 => Some("STABLEHLO_ABS"@),
        176 => Some("STABLEHLO_AND"@),
        177 => Some("STABLEHLO_COSINE"@),
        178 => Some("STABLEHLO_EXPONENTIAL"@),
        179 => Some("STABLEHLO_FLOOR"@),
        180 => Some("STABLEHLO_LOG"@),
        181 => Some("STABLEHLO_MINIMUM"@),
        182 => Some("STABLEHLO_NEGATE"@),
        183 => Some("STABLEHLO_OR"@),
        184 => Some("STABLEHLO_POWER"@),
        185 => Some("STABLEHLO_REMAINDER"@),
        186 => Some("STABLEHLO_RSQRT"@),
        187 => Some("STABLEHLO_SELECT"@),
        188 => Some("STABLEHLO_SUBTRACT"@),
        189 => Some("STABLEHLO_TANH"@),
        190 => Some("STABLEHLO_SCATTER"@),
        191 => Some("STABLEHLO_COMPARE"@),
        192 => Some("STABLEHLO_CONVERT"@),
        193 => Some("STABLEHLO_DYNAMIC_SLICE"@),
        194 => Some("STABLEHLO_DYNAMIC_UPDATE_SLICE"@),
        195 => Some("STABLEHLO_PAD"@),
        196 => Some("STABLEHLO_IOTA"@),
        197 => Some("STABLEHLO_DOT_GENERAL"@),
        198 => Some("STABLEHLO_REDUCE_WINDOW"@),
        199 => Some("STABLEHLO_SORT"@),
        200 => Some("STABLEHLO_WHILE"@),
        201 => Some("STABLEHLO_GATHER"@),
        202 => Some("STABLEHLO_TRANSPOSE"@),
        203 => Some("DILATE"@),
        204 => Some("STABLEHLO_RNG_BIT_GENERATOR"@),
        205 => Some("REDUCE_WINDOW"@),
        206 => Some("STABLEHLO_COMPOSITE"@),
        207 => Some("STABLEHLO_SHIFT_LEFT"@),
        208 => Some("STABLEHLO_CBRT"@),
        209 => Some("STABLEHLO_CASE"@),
        _ => None,
    }
}

/// The schema's name of builtin operator `value`, if it has one.
pub fn builtin_operator_name(value: i32) -> (r: Option<&'static str>)
    ensures
        match spec_builtin_operator_name(value) {
            Some(name) => r matches Some(s) && s@ == name,
            None => r is None,
        },
{
    if value < 0 || value > 209 {
        return None;
    }
    Some(
        match value {
        0 => "ADD",
        1 => "AVERAGE_POOL_2D",
        2 => "CONCATENATION",
        3 => "CONV_2D",
        4 => "DEPTHWISE_CONV_2D",
        5 => "DEPTH_TO_SPACE",
        6 => "DEQUANTIZE",
        7 => "EMBEDDING_LOOKUP",
        8 => "FLOOR",
        9 => "FULLY_CONNECTED",
        10 => "HASHTABLE_LOOKUP",
        11 => "L2_NORMALIZATION",
        12 => "L2_POOL_2D",
        13 => "LOCAL_RESPONSE_NORMALIZATION",
        14 => "LOGISTIC",
        15 => "LSH_PROJECTION",
        16 => "LSTM",
        17 => "MAX_POOL_2D",
        18 => "MUL",
        19 => "RELU",
        20 => "RELU_N1_TO_1",
        21 => "RELU6",
        22 => "RESHAPE",
        23 => "RESIZE_BILINEAR",
        24 => "RNN",
        25 => "SOFTMAX",
        26 => "SPACE_TO_DEPTH",
        27 => "SVDF",
        28 => "TANH",
        29 => "CONCAT_EMBEDDINGS",
        30 => "SKIP_GRAM",
        31 => "CALL",
        32 => "CUSTOM",
        33 => "EMBEDDING_LOOKUP_SPARSE",
        34 => "PAD",
        35 => "UNIDIRECTIONAL_SEQUENCE_RNN",
        36 => "GATHER",
        37 => "BATCH_TO_SPACE_ND",
        38 => "SPACE_TO_BATCH_ND",
        39 => "TRANSPOSE",
        40 => "MEAN",
        41 => "SUB",
        42 => "DIV",
        43 => "SQUEEZE",
        44 => "UNIDIRECTIONAL_SEQUENCE_LSTM",
        45 => "STRIDED_SLICE",
        46 => "BIDIRECTIONAL_SEQUENCE_RNN",
        47 => "EXP",
        48 => "TOPK_V2",
        49 => "SPLIT",
        50 => "LOG_SOFTMAX",
        51 => "DELEGATE",
        52 => "BIDIRECTIONAL_SEQUENCE_LSTM",
        53 => "CAST",
        54 => "PRELU",
        55 => "MAXIMUM",
        56 => "ARG_MAX",
        57 => "MINIMUM",
        58 => "LESS",
        59 => "NEG",
        60 => "PADV2",
        61 => "GREATER",
        62 => "GREATER_EQUAL",
        63 => "LESS_EQUAL",
        64 => "SELECT",
        65 => "SLICE",
        66 => "SIN",
        67 => "TRANSPOSE_CONV",
        68 => "SPARSE_TO_DENSE",
        69 => "TILE",
        70 => "EXPAND_DIMS",
        71 => "EQUAL",
        72 => "NOT_EQUAL",
        73 => "LOG",
        74 => "SUM",
        75 => "SQRT",
        76 => "RSQRT",
        77 => "SHAPE",
        78 => "POW",
        79 => "ARG_MIN",
        80 => "FAKE_QUANT",
        81 => "REDUCE_PROD",
        82 => "REDUCE_MAX",
        83 => "PACK",
        84 => "LOGICAL_OR",
        85 => "ONE_HOT",
        86 => "LOGICAL_AND",
        87 => "LOGICAL_NOT",
        88 => "UNPACK",
        89 => "REDUCE_MIN",
        90 => "FLOOR_DIV",
        91 => "REDUCE_ANY",
        92 => "SQUARE",
        93 => "ZEROS_LIKE",
        94 => "FILL",
        95 => "FLOOR_MOD",
        96 => "RANGE",
        97 => "RESIZE_NEAREST_NEIGHBOR",
        98 => "LEAKY_RELU",
        99 => "SQUARED_DIFFERENCE",
        100 => "MIRROR_PAD",
        101 => "ABS",
        102 => "SPLIT_V",
        103 => "UNIQUE",
        104 => "CEIL",
        105 => "REVERSE_V2",
        106 => "ADD_N",
        107 => "GATHER_ND",
        108 => "COS",
        109 => "WHERE",
        110 => "RANK",
        111 => "ELU",
        112 => "REVERSE_SEQUENCE",
        113 => "MATRIX_DIAG",
        114 => "QUANTIZE",
        115 => "MATRIX_SET_DIAG",
        116 => "ROUND",
        117 => "HARD_SWISH",
        118 => "IF",
        119 => "WHILE",
        120 => "NON_MAX_SUPPRESSION_V4",
        121 => "NON_MAX_SUPPRESSION_V5",
        122 => "SCATTER_ND",
        123 => "SELECT_V2",
        124 => "DENSIFY",
        125 => "SEGMENT_SUM",
        126 => "BATCH_MATMUL",
        127 => "PLACEHOLDER_FOR_GREATER_OP_CODES",
        128 => "CUMSUM",
        129 => "CALL_ONCE",
        130 => "BROADCAST_TO",
        131 => "RFFT2D",
        132 => "CONV_3D",
        133 => "IMAG",
        134 => "REAL",
        135 => "COMPLEX_ABS",
        136 => "HASHTABLE",
        137 => "HASHTABLE_FIND",
        138 => "HASHTABLE_IMPORT",
        139 => "HASHTABLE_SIZE",
        140 => "REDUCE_ALL",
        141 => "CONV_3D_TRANSPOSE",
        142 => "VAR_HANDLE",
        143 => "READ_VARIABLE",
        144 => "ASSIGN_VARIABLE",
        145 => "BROADCAST_ARGS",
        146 => "RANDOM_STANDARD_NORMAL",
        147 => "BUCKETIZE",
        148 => "RANDOM_UNIFORM",
        149 => "MULTINOMIAL",
        150 => "GELU",
        151 => "DYNAMIC_UPDATE_SLICE",
        152 => "RELU_0_TO_1",
        153 => "UNSORTED_SEGMENT_PROD",
        154 => "UNSORTED_SEGMENT_MAX",
        155 => "UNSORTED_SEGMENT_SUM",
        156 => "ATAN2",
        157 => "UNSORTED_SEGMENT_MIN",
        158 => "SIGN",
        159 => "BITCAST",
        160 => "BITWISE_XOR",
        161 => "RIGHT_SHIFT",
        162 => "STABLEHLO_LOGISTIC",
        163 => "STABLEHLO_ADD",
        164 => "STABLEHLO_DIVIDE",
        165 => "STABLEHLO_MULTIPLY",
        166 => "STABLEHLO_MAXIMUM",
        167 => "STABLEHLO_RESHAPE",
        168 => "STABLEHLO_CLAMP",
        169 => "STABLEHLO_CONCATENATE",
        170 => "STABLEHLO_BROADCAST_IN_DIM",
        171 => "STABLEHLO_CONVOLUTION",
        172 => "STABLEHLO_SLICE",
        173 => "STABLEHLO_CUSTOM_CALL",
        174 => "STABLEHLO_REDUCE",
        175 => "STABLEHLO_ABS",
        176 => "STABLEHLO_AND",
        177 => "STABLEHLO_COSINE",
        178 => "STABLEHLO_EXPONENTIAL",
        179 => "STABLEHLO_FLOOR",
        180 => "STABLEHLO_LOG",
        181 => "STABLEHLO_MINIMUM",
        182 => "STABLEHLO_NEGATE",
        183 => "STABLEHLO_OR",
        184 => "STABLEHLO_POWER",
        185 => "STABLEHLO_REMAINDER",
        186 => "STABLEHLO_RSQRT",
        187 => "STABLEHLO_SELECT",
        188 => "STABLEHLO_SUBTRACT",
        189 => "STABLEHLO_TANH",
        190 => "STABLEHLO_SCATTER",
        191 => "STABLEHLO_COMPARE",
        192 => "STABLEHLO_CONVERT",
        193 => "STABLEHLO_DYNAMIC_SLICE",
        194 => "STABLEHLO_DYNAMIC_UPDATE_SLICE",
        195 => "STABLEHLO_PAD",
        196 => "STABLEHLO_IOTA",
        197 => "STABLEHLO_DOT_GENERAL",
        198 => "STABLEHLO_REDUCE_WINDOW",
        199 => "STABLEHLO_SORT",
        200 => "STABLEHLO_WHILE",
        201 => "STABLEHLO_GATHER",
        202 => "STABLEHLO_TRANSPOSE",
        203 => "DILATE",
        204 => "STABLEHLO_RNG_BIT_GENERATOR",
        205 => "REDUCE_WINDOW",
        206 => "STABLEHLO_COMPOSITE",
        207 => "STABLEHLO_SHIFT_LEFT",
        208 => "STABLEHLO_CBRT",
        209 => "STABLEHLO_CASE",
            _ => "",
        },
    )
}

/// `c` in upper case, when it is an ASCII small letter.
pub open spec fn ascii_upper(c: char) -> char {
    if 'a' <= c <= 'z' {
        ((c as u32) - 32) as char
    } else {
        c
    }
}

/// The parts of an operator name that stay in capitals.
pub open spec fn is_capital_part(part: Seq<char>) -> bool {
    part == "2D"@ || part == "LSH"@ || part == "SVDF"@ || part == "RNN"@ || part == "L2"@ || part
        == "LSTM"@
}

/// How a part of an operator name is shown: as it is when it is empty or
/// stays in capitals, else capitalised.
pub open spec fn display_part(part: Seq<char>) -> Seq<char> {
    if part.len() == 0 || is_capital_part(part) {
        part
    } else {
        seq![ascii_upper(part[0])] + ascii_lowercase(part.drop_first())
    }
}

/// The shown parts, joined.
pub open spec fn display_parts(parts: Seq<Seq<char>>) -> Seq<char>
    decreases parts.len(),
{
    if parts.len() == 0 {
        Seq::empty()
    } else {
        display_parts(parts.drop_last()) + display_part(parts.last())
    }
}

/// How a builtin operator name is shown: `BATCH_MATMUL` as `BATCH_MAT_MUL`,
/// then each part between underscores capitalised, and the parts joined.
pub open spec fn spec_display_builtin_operator_name(name: Seq<char>) -> Seq<char> {
    let name = if name == "BATCH_MATMUL"@ {
        "BATCH_MAT_MUL"@
    } else {
        name
    };
    display_parts(split(name, '_'))
}

/// Whether `part` stays in capitals.
fn capital_part(part: &str) -> (r: bool)
    ensures
        r == is_capital_part(part@),
{
    str_eq(part, "2D") || str_eq(part, "LSH") || str_eq(part, "SVDF") || str_eq(part, "RNN")
        || str_eq(part, "L2") || str_eq(part, "LSTM")
}

/// Appends the shown form of `part` to `out`.
fn push_display_part(out: &mut Vec<char>, part: &str)
    ensures
        final(out)@ == old(out)@ + display_part(part@),
{
    if part.unicode_len() == 0 || capital_part(part) {
        let chars = str_chars(part);
        let mut i: usize = 0;
        let ghost start = out@;
        while i < chars.len()
            invariant
                i <= chars@.len(),
                chars@ == part@,
                out@ == start + chars@.take(i as int),
            decreases chars@.len() - i,
        {
            out.push(chars[i]);
            proof {
                assert(chars@.take(i + 1) =~= chars@.take(i as int).push(chars@[i as int]));
            }
            i = i + 1;
        }
        proof {
            assert(chars@.take(chars@.len() as int) =~= chars@);
        }
        return;
    }
    let chars = str_chars(part);
    let first = chars[0];
    let upper = if 'a' <= first && first <= 'z' {
        ((first as u32) - 32) as u8 as char
    } else {
        first
    };
    let ghost start = out@;
    out.push(upper);
    let mut i: usize = 1;
    while i < chars.len()
        invariant
            1 <= i <= chars@.len(),
            chars@ == part@,
            out@ == start + seq![ascii_upper(part@[0])] + ascii_lowercase(
                chars@.subrange(1, i as int),
            ),
        decreases chars@.len() - i,
    {
        let c = chars[i];
        let lower = if 'A' <= c && c <= 'Z' {
            ((c as u32) + 32) as u8 as char
        } else {
            c
        };
        out.push(lower);
        proof {
            assert(ascii_lowercase(chars@.subrange(1, i + 1)) =~= ascii_lowercase(
                chars@.subrange(1, i as int),
            ).push(lower));
        }
        i = i + 1;
    }
    proof {
        assert(chars@.subrange(1, chars@.len() as int) =~= part@.drop_first());
    }
}

/// How a builtin operator name is shown: each part between underscores
/// capitalised, but for a few that stay in capitals, and the parts joined.
pub fn display_builtin_operator_name(name: &str) -> (r: String)
    ensures
        r@ == spec_display_builtin_operator_name(name@),
{
    let name = if str_eq(name, "BATCH_MATMUL") {
        "BATCH_MAT_MUL"
    } else {
        name
    };
    let parts = str_split(name, '_');
    let mut out: Vec<char> = Vec::new();
    let mut i: usize = 0;
    proof {
        assert(str_views(parts@).take(0) =~= Seq::<Seq<char>>::empty());
    }
    while i < parts.len()
        invariant
            i <= parts@.len(),
            str_views(parts@) == split(name@, '_'),
            out@ == display_parts(str_views(parts@).take(i as int)),
        decreases parts@.len() - i,
    {
        push_display_part(&mut out, parts[i]);
        proof {
            assert(str_views(parts@).take(i + 1).drop_last() =~= str_views(parts@).take(i as int));
        }
        i = i + 1;
    }
    proof {
        assert(str_views(parts@).take(parts@.len() as int) =~= str_views(parts@));
    }
    chars_string(out.as_slice())
}

/// An operator as the model shows it: its name, its version and whether it is
/// a custom operator.
pub struct OperatorInfo {
    pub name: String,
    pub version: Option<i64>,
    pub custom: bool,
}

/// The builtin code of an operator code: the larger of the deprecated and the
/// current field.
pub open spec fn effective_builtin_code(code: OperatorCodeView) -> i32 {
    if code.deprecated_builtin_code as i32 >= code.builtin_code {
        code.deprecated_builtin_code as i32
    } else {
        code.builtin_code
    }
}

/// The name of an operator: for a custom operator (code 32) its custom code
/// when it has a non-empty one, else `Custom`; for a builtin its shown name, or
/// its number when it has no name.
pub open spec fn spec_operator_name(code: OperatorCodeView) -> Seq<char> {
    let b = effective_builtin_code(code);
    if b == 32 {
        match code.custom_code {
            Some(c) => if c.len() > 0 {
                c
            } else {
                "Custom"@
            },
            None => "Custom"@,
        }
    } else {
        match spec_builtin_operator_name(b) {
            Some(name) => spec_display_builtin_operator_name(name),
            None => decimal(b as int),
        }
    }
}

/// The operator that an operator code describes.
pub fn operator_code(code: &OperatorCode) -> (r: OperatorInfo)
    ensures
        r.name@ == spec_operator_name(code@),
        r.version == Some(code.version as i64),
        r.custom == (effective_builtin_code(code@) == 32),
{
    let deprecated = code.deprecated_builtin_code as i32;
    let builtin_code = if deprecated >= code.builtin_code {
        deprecated
    } else {
        code.builtin_code
    };
    if builtin_code == 32 {
        let name = match &code.custom_code {
            Some(value) => if value.unicode_len() > 0 {
                value.clone()
            } else {
                "Custom".to_owned()
            },
            None => "Custom".to_owned(),
        };
        return OperatorInfo { name, version: Some(code.version as i64), custom: true };
    }
    let name = match builtin_operator_name(builtin_code) {
        Some(name) => display_builtin_operator_name(name),
        None => i64_to_string(builtin_code as i64),
    };
    OperatorInfo { name, version: Some(code.version as i64), custom: false }
}

} // verus!
