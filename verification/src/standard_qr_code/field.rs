//! The field of the symbol standard: the field with 256 elements in which
//! `x^8` is `x^4 + x^3 + x^2 + 1`.
//!
//! The powers of `x` and their exponents stand here as tables, against
//! which it is proved that `x` generates the field. So the field can always
//! be made.

use vstd::prelude::*;
use crate::galois_field::GaloisFields;
use crate::galois_field::binary_representation;
use crate::galois_field::exponent_of;
use crate::galois_field::field_order;
use crate::galois_field::field_product;
use crate::galois_field::is_binary_polynomial;
use crate::galois_field::times_x;
use crate::galois_field::is_power_below;
use crate::galois_field::is_supported_field;
use crate::galois_field::power_of_x;
use crate::polynomials::Indeterminate;
use crate::polynomials::Polynomial;

verus! {

/// The reduction polynomial of the field, `x^4 + x^3 + x^2 + 1`, with which
/// `x^8` is replaced.
pub open spec fn qr_reduction() -> Seq<Indeterminate> {
    seq![
        Indeterminate { coefficient: 1, degree: 4 },
        Indeterminate { coefficient: 1, degree: 3 },
        Indeterminate { coefficient: 1, degree: 2 },
        Indeterminate { coefficient: 1, degree: 0 },
    ]
}

/// The reduction mask of the field.
pub open spec fn qr_mask() -> u8 {
    binary_representation(qr_reduction())
}

/// The power `x^exponent` in the field, for an exponent below 255.
pub open spec fn symbol_power(exponent: u8) -> u8 {
    if exponent == 0 {
        1
    }     else if exponent == 1 {
        2
    }     else if exponent == 2 {
        4
    }     else if exponent == 3 {
        8
    }     else if exponent == 4 {
        16
    }     else if exponent == 5 {
        32
    }     else if exponent == 6 {
        64
    }     else if exponent == 7 {
        128
    }     else if exponent == 8 {
        29
    }     else if exponent == 9 {
        58
    }     else if exponent == 10 {
        116
    }     else if exponent == 11 {
        232
    }     else if exponent == 12 {
        205
    }     else if exponent == 13 {
        135
    }     else if exponent == 14 {
        19
    }     else if exponent == 15 {
        38
    }     else if exponent == 16 {
        76
    }     else if exponent == 17 {
        152
    }     else if exponent == 18 {
        45
    }     else if exponent == 19 {
        90
    }     else if exponent == 20 {
        180
    }     else if exponent == 21 {
        117
    }     else if exponent == 22 {
        234
    }     else if exponent == 23 {
        201
    }     else if exponent == 24 {
        143
    }     else if exponent == 25 {
        3
    }     else if exponent == 26 {
        6
    }     else if exponent == 27 {
        12
    }     else if exponent == 28 {
        24
    }     else if exponent == 29 {
        48
    }     else if exponent == 30 {
        96
    }     else if exponent == 31 {
        192
    }     else if exponent == 32 {
        157
    }     else if exponent == 33 {
        39
    }     else if exponent == 34 {
        78
    }     else if exponent == 35 {
        156
    }     else if exponent == 36 {
        37
    }     else if exponent == 37 {
        74
    }     else if exponent == 38 {
        148
    }     else if exponent == 39 {
        53
    }     else if exponent == 40 {
        106
    }     else if exponent == 41 {
        212
    }     else if exponent == 42 {
        181
    }     else if exponent == 43 {
        119
    }     else if exponent == 44 {
        238
    }     else if exponent == 45 {
        193
    }     else if exponent == 46 {
        159
    }     else if exponent == 47 {
        35
    }     else if exponent == 48 {
        70
    }     else if exponent == 49 {
        140
    }     else if exponent == 50 {
        5
    }     else if exponent == 51 {
        10
    }     else if exponent == 52 {
        20
    }     else if exponent == 53 {
        40
    }     else if exponent == 54 {
        80
    }     else if exponent == 55 {
        160
    }     else if exponent == 56 {
        93
    }     else if exponent == 57 {
        186
    }     else if exponent == 58 {
        105
    }     else if exponent == 59 {
        210
    }     else if exponent == 60 {
        185
    }     else if exponent == 61 {
        111
    }     else if exponent == 62 {
        222
    }     else if exponent == 63 {
        161
    }     else if exponent == 64 {
        95
    }     else if exponent == 65 {
        190
    }     else if exponent == 66 {
        97
    }     else if exponent == 67 {
        194
    }     else if exponent == 68 {
        153
    }     else if exponent == 69 {
        47
    }     else if exponent == 70 {
        94
    }     else if exponent == 71 {
        188
    }     else if exponent == 72 {
        101
    }     else if exponent == 73 {
        202
    }     else if exponent == 74 {
        137
    }     else if exponent == 75 {
        15
    }     else if exponent == 76 {
        30
    }     else if exponent == 77 {
        60
    }     else if exponent == 78 {
        120
    }     else if exponent == 79 {
        240
    }     else if exponent == 80 {
        253
    }     else if exponent == 81 {
        231
    }     else if exponent == 82 {
        211
    }     else if exponent == 83 {
        187
    }     else if exponent == 84 {
        107
    }     else if exponent == 85 {
        214
    }     else if exponent == 86 {
        177
    }     else if exponent == 87 {
        127
    }     else if exponent == 88 {
        254
    }     else if exponent == 89 {
        225
    }     else if exponent == 90 {
        223
    }     else if exponent == 91 {
        163
    }     else if exponent == 92 {
        91
    }     else if exponent == 93 {
        182
    }     else if exponent == 94 {
        113
    }     else if exponent == 95 {
        226
    }     else if exponent == 96 {
        217
    }     else if exponent == 97 {
        175
    }     else if exponent == 98 {
        67
    }     else if exponent == 99 {
        134
    }     else if exponent == 100 {
        17
    }     else if exponent == 101 {
        34
    }     else if exponent == 102 {
        68
    }     else if exponent == 103 {
        136
    }     else if exponent == 104 {
        13
    }     else if exponent == 105 {
        26
    }     else if exponent == 106 {
        52
    }     else if exponent == 107 {
        104
    }     else if exponent == 108 {
        208
    }     else if exponent == 109 {
        189
    }     else if exponent == 110 {
        103
    }     else if exponent == 111 {
        206
    }     else if exponent == 112 {
        129
    }     else if exponent == 113 {
        31
    }     else if exponent == 114 {
        62
    }     else if exponent == 115 {
        124
    }     else if exponent == 116 {
        248
    }     else if exponent == 117 {
        237
    }     else if exponent == 118 {
        199
    }     else if exponent == 119 {
        147
    }     else if exponent == 120 {
        59
    }     else if exponent == 121 {
        118
    }     else if exponent == 122 {
        236
    }     else if exponent == 123 {
        197
    }     else if exponent == 124 {
        151
    }     else if exponent == 125 {
        51
    }     else if exponent == 126 {
        102
    }     else if exponent == 127 {
        204
    }     else if exponent == 128 {
        133
    }     else if exponent == 129 {
        23
    }     else if exponent == 130 {
        46
    }     else if exponent == 131 {
        92
    }     else if exponent == 132 {
        184
    }     else if exponent == 133 {
        109
    }     else if exponent == 134 {
        218
    }     else if exponent == 135 {
        169
    }     else if exponent == 136 {
        79
    }     else if exponent == 137 {
        158
    }     else if exponent == 138 {
        33
    }     else if exponent == 139 {
        66
    }     else if exponent == 140 {
        132
    }     else if exponent == 141 {
        21
    }     else if exponent == 142 {
        42
    }     else if exponent == 143 {
        84
    }     else if exponent == 144 {
        168
    }     else if exponent == 145 {
        77
    }     else if exponent == 146 {
        154
    }     else if exponent == 147 {
        41
    }     else if exponent == 148 {
        82
    }     else if exponent == 149 {
        164
    }     else if exponent == 150 {
        85
    }     else if exponent == 151 {
        170
    }     else if exponent == 152 {
        73
    }     else if exponent == 153 {
        146
    }     else if exponent == 154 {
        57
    }     else if exponent == 155 {
        114
    }     else if exponent == 156 {
        228
    }     else if exponent == 157 {
        213
    }     else if exponent == 158 {
        183
    }     else if exponent == 159 {
        115
    }     else if exponent == 160 {
        230
    }     else if exponent == 161 {
        209
    }     else if exponent == 162 {
        191
    }     else if exponent == 163 {
        99
    }     else if exponent == 164 {
        198
    }     else if exponent == 165 {
        145
    }     else if exponent == 166 {
        63
    }     else if exponent == 167 {
        126
    }     else if exponent == 168 {
        252
    }     else if exponent == 169 {
        229
    }     else if exponent == 170 {
        215
    }     else if exponent == 171 {
        179
    }     else if exponent == 172 {
        123
    }     else if exponent == 173 {
        246
    }     else if exponent == 174 {
        241
    }     else if exponent == 175 {
        255
    }     else if exponent == 176 {
        227
    }     else if exponent == 177 {
        219
    }     else if exponent == 178 {
        171
    }     else if exponent == 179 {
        75
    }     else if exponent == 180 {
        150
    }     else if exponent == 181 {
        49
    }     else if exponent == 182 {
        98
    }     else if exponent == 183 {
        196
    }     else if exponent == 184 {
        149
    }     else if exponent == 185 {
        55
    }     else if exponent == 186 {
        110
    }     else if exponent == 187 {
        220
    }     else if exponent == 188 {
        165
    }     else if exponent == 189 {
        87
    }     else if exponent == 190 {
        174
    }     else if exponent == 191 {
        65
    }     else if exponent == 192 {
        130
    }     else if exponent == 193 {
        25
    }     else if exponent == 194 {
        50
    }     else if exponent == 195 {
        100
    }     else if exponent == 196 {
        200
    }     else if exponent == 197 {
        141
    }     else if exponent == 198 {
        7
    }     else if exponent == 199 {
        14
    }     else if exponent == 200 {
        28
    }     else if exponent == 201 {
        56
    }     else if exponent == 202 {
        112
    }     else if exponent == 203 {
        224
    }     else if exponent == 204 {
        221
    }     else if exponent == 205 {
        167
    }     else if exponent == 206 {
        83
    }     else if exponent == 207 {
        166
    }     else if exponent == 208 {
        81
    }     else if exponent == 209 {
        162
    }     else if exponent == 210 {
        89
    }     else if exponent == 211 {
        178
    }     else if exponent == 212 {
        121
    }     else if exponent == 213 {
        242
    }     else if exponent == 214 {
        249
    }     else if exponent == 215 {
        239
    }     else if exponent == 216 {
        195
    }     else if exponent == 217 {
        155
    }     else if exponent == 218 {
        43
    }     else if exponent == 219 {
        86
    }     else if exponent == 220 {
        172
    }     else if exponent == 221 {
        69
    }     else if exponent == 222 {
        138
    }     else if exponent == 223 {
        9
    }     else if exponent == 224 {
        18
    }     else if exponent == 225 {
        36
    }     else if exponent == 226 {
        72
    }     else if exponent == 227 {
        144
    }     else if exponent == 228 {
        61
    }     else if exponent == 229 {
        122
    }     else if exponent == 230 {
        244
    }     else if exponent == 231 {
        245
    }     else if exponent == 232 {
        247
    }     else if exponent == 233 {
        243
    }     else if exponent == 234 {
        251
    }     else if exponent == 235 {
        235
    }     else if exponent == 236 {
        203
    }     else if exponent == 237 {
        139
    }     else if exponent == 238 {
        11
    }     else if exponent == 239 {
        22
    }     else if exponent == 240 {
        44
    }     else if exponent == 241 {
        88
    }     else if exponent == 242 {
        176
    }     else if exponent == 243 {
        125
    }     else if exponent == 244 {
        250
    }     else if exponent == 245 {
        233
    }     else if exponent == 246 {
        207
    }     else if exponent == 247 {
        131
    }     else if exponent == 248 {
        27
    }     else if exponent == 249 {
        54
    }     else if exponent == 250 {
        108
    }     else if exponent == 251 {
        216
    }     else if exponent == 252 {
        173
    }     else if exponent == 253 {
        71
    } else {
        142
    }
}

/// The exponent below 255 to which `x` gives `value`, for a value that is
/// not zero.
pub open spec fn symbol_exponent(value: u8) -> u8 {
    if value == 1 {
        0
    }     else if value == 2 {
        1
    }     else if value == 3 {
        25
    }     else if value == 4 {
        2
    }     else if value == 5 {
        50
    }     else if value == 6 {
        26
    }     else if value == 7 {
        198
    }     else if value == 8 {
        3
    }     else if value == 9 {
        223
    }     else if value == 10 {
        51
    }     else if value == 11 {
        238
    }     else if value == 12 {
        27
    }     else if value == 13 {
        104
    }     else if value == 14 {
        199
    }     else if value == 15 {
        75
    }     else if value == 16 {
        4
    }     else if value == 17 {
        100
    }     else if value == 18 {
        224
    }     else if value == 19 {
        14
    }     else if value == 20 {
        52
    }     else if value == 21 {
        141
    }     else if value == 22 {
        239
    }     else if value == 23 {
        129
    }     else if value == 24 {
        28
    }     else if value == 25 {
        193
    }     else if value == 26 {
        105
    }     else if value == 27 {
        248
    }     else if value == 28 {
        200
    }     else if value == 29 {
        8
    }     else if value == 30 {
        76
    }     else if value == 31 {
        113
    }     else if value == 32 {
        5
    }     else if value == 33 {
        138
    }     else if value == 34 {
        101
    }     else if value == 35 {
        47
    }     else if value == 36 {
        225
    }     else if value == 37 {
        36
    }     else if value == 38 {
        15
    }     else if value == 39 {
        33
    }     else if value == 40 {
        53
    }     else if value == 41 {
        147
    }     else if value == 42 {
        142
    }     else if value == 43 {
        218
    }     else if value == 44 {
        240
    }     else if value == 45 {
        18
    }     else if value == 46 {
        130
    }     else if value == 47 {
        69
    }     else if value == 48 {
        29
    }     else if value == 49 {
        181
    }     else if value == 50 {
        194
    }     else if value == 51 {
        125
    }     else if value == 52 {
        106
    }     else if value == 53 {
        39
    }     else if value == 54 {
        249
    }     else if value == 55 {
        185
    }     else if value == 56 {
        201
    }     else if value == 57 {
        154
    }     else if value == 58 {
        9
    }     else if value == 59 {
        120
    }     else if value == 60 {
        77
    }     else if value == 61 {
        228
    }     else if value == 62 {
        114
    }     else if value == 63 {
        166
    }     else if value == 64 {
        6
    }     else if value == 65 {
        191
    }     else if value == 66 {
        139
    }     else if value == 67 {
        98
    }     else if value == 68 {
        102
    }     else if value == 69 {
        221
    }     else if value == 70 {
        48
    }     else if value == 71 {
        253
    }     else if value == 72 {
        226
    }     else if value == 73 {
        152
    }     else if value == 74 {
        37
    }     else if value == 75 {
        179
    }     else if value == 76 {
        16
    }     else if value == 77 {
        145
    }     else if value == 78 {
        34
    }     else if value == 79 {
        136
    }     else if value == 80 {
        54
    }     else if value == 81 {
        208
    }     else if value == 82 {
        148
    }     else if value == 83 {
        206
    }     else if value == 84 {
        143
    }     else if value == 85 {
        150
    }     else if value == 86 {
        219
    }     else if value == 87 {
        189
    }     else if value == 88 {
        241
    }     else if value == 89 {
        210
    }     else if value == 90 {
        19
    }     else if value == 91 {
        92
    }     else if value == 92 {
        131
    }     else if value == 93 {
        56
    }     else if value == 94 {
        70
    }     else if value == 95 {
        64
    }     else if value == 96 {
        30
    }     else if value == 97 {
        66
    }     else if value == 98 {
        182
    }     else if value == 99 {
        163
    }     else if value == 100 {
        195
    }     else if value == 101 {
        72
    }     else if value == 102 {
        126
    }     else if value == 103 {
        110
    }     else if value == 104 {
        107
    }     else if value == 105 {
        58
    }     else if value == 106 {
        40
    }     else if value == 107 {
        84
    }     else if value == 108 {
        250
    }     else if value == 109 {
        133
    }     else if value == 110 {
        186
    }     else if value == 111 {
        61
    }     else if value == 112 {
        202
    }     else if value == 113 {
        94
    }     else if value == 114 {
        155
    }     else if value == 115 {
        159
    }     else if value == 116 {
        10
    }     else if value == 117 {
        21
    }     else if value == 118 {
        121
    }     else if value == 119 {
        43
    }     else if value == 120 {
        78
    }     else if value == 121 {
        212
    }     else if value == 122 {
        229
    }     else if value == 123 {
        172
    }     else if value == 124 {
        115
    }     else if value == 125 {
        243
    }     else if value == 126 {
        167
    }     else if value == 127 {
        87
    }     else if value == 128 {
        7
    }     else if value == 129 {
        112
    }     else if value == 130 {
        192
    }     else if value == 131 {
        247
    }     else if value == 132 {
        140
    }     else if value == 133 {
        128
    }     else if value == 134 {
        99
    }     else if value == 135 {
        13
    }     else if value == 136 {
        103
    }     else if value == 137 {
        74
    }     else if value == 138 {
        222
    }     else if value == 139 {
        237
    }     else if value == 140 {
        49
    }     else if value == 141 {
        197
    }     else if value == 142 {
        254
    }     else if value == 143 {
        24
    }     else if value == 144 {
        227
    }     else if value == 145 {
        165
    }     else if value == 146 {
        153
    }     else if value == 147 {
        119
    }     else if value == 148 {
        38
    }     else if value == 149 {
        184
    }     else if value == 150 {
        180
    }     else if value == 151 {
        124
    }     else if value == 152 {
        17
    }     else if value == 153 {
        68
    }     else if value == 154 {
        146
    }     else if value == 155 {
        217
    }     else if value == 156 {
        35
    }     else if value == 157 {
        32
    }     else if value == 158 {
        137
    }     else if value == 159 {
        46
    }     else if value == 160 {
        55
    }     else if value == 161 {
        63
    }     else if value == 162 {
        209
    }     else if value == 163 {
        91
    }     else if value == 164 {
        149
    }     else if value == 165 {
        188
    }     else if value == 166 {
        207
    }     else if value == 167 {
        205
    }     else if value == 168 {
        144
    }     else if value == 169 {
        135
    }     else if value == 170 {
        151
    }     else if value == 171 {
        178
    }     else if value == 172 {
        220
    }     else if value == 173 {
        252
    }     else if value == 174 {
        190
    }     else if value == 175 {
        97
    }     else if value == 176 {
        242
    }     else if value == 177 {
        86
    }     else if value == 178 {
        211
    }     else if value == 179 {
        171
    }     else if value == 180 {
        20
    }     else if value == 181 {
        42
    }     else if value == 182 {
        93
    }     else if value == 183 {
        158
    }     else if value == 184 {
        132
    }     else if value == 185 {
        60
    }     else if value == 186 {
        57
    }     else if value == 187 {
        83
    }     else if value == 188 {
        71
    }     else if value == 189 {
        109
    }     else if value == 190 {
        65
    }     else if value == 191 {
        162
    }     else if value == 192 {
        31
    }     else if value == 193 {
        45
    }     else if value == 194 {
        67
    }     else if value == 195 {
        216
    }     else if value == 196 {
        183
    }     else if value == 197 {
        123
    }     else if value == 198 {
        164
    }     else if value == 199 {
        118
    }     else if value == 200 {
        196
    }     else if value == 201 {
        23
    }     else if value == 202 {
        73
    }     else if value == 203 {
        236
    }     else if value == 204 {
        127
    }     else if value == 205 {
        12
    }     else if value == 206 {
        111
    }     else if value == 207 {
        246
    }     else if value == 208 {
        108
    }     else if value == 209 {
        161
    }     else if value == 210 {
        59
    }     else if value == 211 {
        82
    }     else if value == 212 {
        41
    }     else if value == 213 {
        157
    }     else if value == 214 {
        85
    }     else if value == 215 {
        170
    }     else if value == 216 {
        251
    }     else if value == 217 {
        96
    }     else if value == 218 {
        134
    }     else if value == 219 {
        177
    }     else if value == 220 {
        187
    }     else if value == 221 {
        204
    }     else if value == 222 {
        62
    }     else if value == 223 {
        90
    }     else if value == 224 {
        203
    }     else if value == 225 {
        89
    }     else if value == 226 {
        95
    }     else if value == 227 {
        176
    }     else if value == 228 {
        156
    }     else if value == 229 {
        169
    }     else if value == 230 {
        160
    }     else if value == 231 {
        81
    }     else if value == 232 {
        11
    }     else if value == 233 {
        245
    }     else if value == 234 {
        22
    }     else if value == 235 {
        235
    }     else if value == 236 {
        122
    }     else if value == 237 {
        117
    }     else if value == 238 {
        44
    }     else if value == 239 {
        215
    }     else if value == 240 {
        79
    }     else if value == 241 {
        174
    }     else if value == 242 {
        213
    }     else if value == 243 {
        233
    }     else if value == 244 {
        230
    }     else if value == 245 {
        231
    }     else if value == 246 {
        173
    }     else if value == 247 {
        232
    }     else if value == 248 {
        116
    }     else if value == 249 {
        214
    }     else if value == 250 {
        244
    }     else if value == 251 {
        234
    }     else if value == 252 {
        168
    }     else if value == 253 {
        80
    }     else if value == 254 {
        88
    } else {
        175
    }
}

/// The product of an element with `x`, in bits: the element is moved up by
/// one bit, and where its highest bit falls out the mask is added.
pub open spec fn symbol_times_x(value: u8) -> u8 {
    if value & 0x80 != 0 {
        (value << 1) ^ 0x1d
    } else {
        value << 1
    }
}

/// The reduction mask is `0b0001_1101`.
proof fn lemma_mask_value()
    ensures
        qr_mask() == 0x1d,
{
    reveal_with_fuel(binary_representation, 5);
    let terms = qr_reduction();
    assert(terms.drop_last() =~= seq![terms[0], terms[1], terms[2]]);
    assert(terms.drop_last().drop_last() =~= seq![terms[0], terms[1]]);
    assert(terms.drop_last().drop_last().drop_last() =~= seq![terms[0]]);
    assert(terms.drop_last().drop_last().drop_last().drop_last() =~= Seq::<Indeterminate>::empty());
    assert((((0u8 | 16) | 8) | 4) | 1 == 0x1d) by (bit_vector);
}

/// The product with `x` is a shift and, on overflow, the mask.
proof fn lemma_times_x_in_bits(value: u8)
    by (bit_vector)
    ensures
        (if 2 * value >= 256 {
            ((2 * value - 256) as u8) ^ 0x1du8
        } else {
            (2 * value) as u8
        }) == symbol_times_x(value),
{
}

/// Each entry of the table of powers is `x` times the entry before.
#[verifier::rlimit(100)]
proof fn lemma_table_steps(exponent: u8)
    by (bit_vector)
    requires
        exponent < 254,
    ensures
        symbol_times_x(symbol_power(exponent)) == symbol_power((exponent + 1) as u8),
{
}

/// The two tables undo each other, and no power is zero.
proof fn lemma_tables_inverse(exponent: u8, value: u8)
    ensures
        exponent < 255 ==> symbol_power(exponent) >= 1 && symbol_exponent(symbol_power(exponent))
            == exponent,
        value >= 1 ==> symbol_exponent(value) < 255 && symbol_power(symbol_exponent(value)) == value,
{
}

/// The table of powers holds the powers of `x`.
pub proof fn lemma_symbol_powers(exponent: int)
    requires
        0 <= exponent < 255,
    ensures
        power_of_x(exponent, 8, qr_mask()) == symbol_power(exponent as u8),
    decreases exponent,
{
    lemma_mask_value();
    if exponent > 0 {
        lemma_symbol_powers(exponent - 1);
        lemma_times_x_in_bits(symbol_power((exponent - 1) as u8));
        lemma_table_steps((exponent - 1) as u8);
    }
}

/// In the field of the symbol standard the powers of `x` are the elements
/// but zero, each once.
pub proof fn lemma_symbol_field_supported()
    ensures
        is_supported_field(8, qr_reduction()),
{
    let mask = qr_mask();
    assert(is_binary_polynomial(qr_reduction()));
    assert forall|i: int| 0 <= i < 255 implies 1 <= #[trigger] power_of_x(i, 8, mask) < 256 by {
        lemma_symbol_powers(i);
        lemma_tables_inverse(i as u8, 1);
    }
    assert forall|value: u8| 1 <= value < 256 implies #[trigger] is_power_below(value, 255, 8, mask) by {
        lemma_tables_inverse(0, value);
        lemma_symbol_powers(symbol_exponent(value) as int);
    }
    assert forall|i: int, j: int| 0 <= i < j < 255 implies #[trigger] power_of_x(i, 8, mask)
        != #[trigger] power_of_x(j, 8, mask) by {
        lemma_symbol_powers(i);
        lemma_symbol_powers(j);
        lemma_tables_inverse(i as u8, 1);
        lemma_tables_inverse(j as u8, 1);
    }
}

/// One step of the product of two elements as polynomials: what was summed
/// so far is multiplied with `x`, and `a` is added where the bit of `b` is
/// set.
pub open spec fn product_step(sum: u8, a: u8, b: u8, bit: u8) -> u8 {
    symbol_times_x(sum) ^ (if b & bit != 0 {
        a
    } else {
        0u8
    })
}

/// The product of two elements as polynomials over the bits, reduced by
/// `x^8 + x^4 + x^3 + x^2 + 1`: the bits of `b` are taken from the highest
/// down.
pub open spec fn bits_product(a: u8, b: u8) -> u8 {
    product_step(
        product_step(
            product_step(
                product_step(
                    product_step(
                        product_step(product_step(product_step(0, a, b, 0x80), a, b, 0x40), a, b, 0x20),
                        a,
                        b,
                        0x10,
                    ),
                    a,
                    b,
                    0x08,
                ),
                a,
                b,
                0x04,
            ),
            a,
            b,
            0x02,
        ),
        a,
        b,
        0x01,
    )
}

/// `value` multiplied `count` times with `x`.
pub open spec fn times_x_many(value: u8, count: int) -> u8
    decreases count,
{
    if count <= 0 {
        value
    } else {
        symbol_times_x(times_x_many(value, count - 1))
    }
}

/// The product of polynomials goes with the product with `x`.
#[verifier::rlimit(100)]
proof fn lemma_product_times_x(a: u8, b: u8)
    by (bit_vector)
    ensures
        bits_product(a, symbol_times_x(b)) == symbol_times_x(bits_product(a, b)),
{
}

/// One is the unit of the product of polynomials and zero its zero.
proof fn lemma_product_in_bits(a: u8, b: u8)
    by (bit_vector)
    ensures
        bits_product(a, 1) == a,
        bits_product(a, 0) == 0,
        bits_product(0, b) == 0,
        symbol_times_x(142) == 1,
{
}

/// The product with `x` in the field is the one in bits.
proof fn lemma_times_x(value: u8)
    ensures
        times_x(value, 8, qr_mask()) == symbol_times_x(value),
{
    lemma_mask_value();
    lemma_times_x_in_bits(value);
}

/// A power of `x` multiplied with `x` again and again gives the later powers.
proof fn lemma_power_sum(first: int, second: int)
    requires
        0 <= first,
        0 <= second,
    ensures
        power_of_x(first + second, 8, qr_mask()) == times_x_many(power_of_x(first, 8, qr_mask()), second),
    decreases second,
{
    if second > 0 {
        lemma_power_sum(first, second - 1);
        lemma_times_x(power_of_x(first + second - 1, 8, qr_mask()));
    }
}

/// The product with a power of `x` is the product with `x`, as often as the
/// exponent says.
proof fn lemma_product_with_power(a: u8, exponent: int)
    requires
        0 <= exponent,
    ensures
        bits_product(a, power_of_x(exponent, 8, qr_mask())) == times_x_many(a, exponent),
    decreases exponent,
{
    if exponent > 0 {
        let before = power_of_x(exponent - 1, 8, qr_mask());
        lemma_product_with_power(a, exponent - 1);
        lemma_times_x(before);
        lemma_product_times_x(a, before);
    } else {
        lemma_product_in_bits(a, 1);
    }
}

/// The powers of `x` come again after 255 steps.
proof fn lemma_power_period(exponent: int)
    requires
        0 <= exponent,
    ensures
        power_of_x(exponent + 255, 8, qr_mask()) == power_of_x(exponent, 8, qr_mask()),
{
    lemma_symbol_powers(254);
    lemma_times_x(power_of_x(254, 8, qr_mask()));
    lemma_product_in_bits(0, 0);
    assert(power_of_x(255, 8, qr_mask()) == 1);
    lemma_power_sum(255, exponent);
    lemma_power_sum(0, exponent);
}

/// The product of the field, which adds exponents, is the product of
/// polynomials over the bits, reduced by `x^8 + x^4 + x^3 + x^2 + 1`.
pub proof fn lemma_field_product_in_bits(a: u8, b: u8)
    ensures
        field_product(a, b, 8, qr_mask()) == bits_product(a, b),
{
    lemma_product_in_bits(a, b);
    if a != 0 && b != 0 {
        lemma_symbol_field_supported();
        let mask = qr_mask();
        assert(is_power_below(a, field_order(8), 8, mask));
        assert(is_power_below(b, field_order(8), 8, mask));
        let first = exponent_of(a, 8, mask);
        let second = exponent_of(b, 8, mask);
        assert(0 <= first < 255 && power_of_x(first, 8, mask) == a);
        assert(0 <= second < 255 && power_of_x(second, 8, mask) == b);
        lemma_product_with_power(a, second);
        lemma_power_sum(first, second);
        if first + second >= 255 {
            lemma_power_period(first + second - 255);
        }
    }
}

/// The field of the symbol standard.
pub fn symbol_field() -> (field: GaloisFields)
    ensures
        field.wf(),
        field.spec_m() == 8,
        field.spec_reduction() == qr_reduction(),
        field.spec_mask() == qr_mask(),
{
    let mut terms: Vec<Indeterminate> = Vec::new();
    terms.push(Indeterminate::new(1, 4));
    terms.push(Indeterminate::new(1, 3));
    terms.push(Indeterminate::new(1, 2));
    terms.push(Indeterminate::new(1, 0));
    assert(terms@ =~= qr_reduction());
    proof {
        lemma_symbol_field_supported();
    }
    match GaloisFields::_new(8, Polynomial { function: terms }) {
        Ok(field) => field,
        Err(_) => vstd::pervasive::unreached(),
    }
}

} // verus!
