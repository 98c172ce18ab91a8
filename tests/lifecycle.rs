use argon2::password_hash::{PasswordHasher, SaltString};

use doc_auth::account::register_user;
use doc_auth::fresh::{claims_time, current_time, new_jti};
use doc_auth::claims::{SessionClaims, SessionRefreshClaims, TokenType};
use doc_auth::error::{ErrorKind, ServiceError};
use doc_auth::gate::{AuthenticationMiddleware, GateStep};
use doc_auth::keys::RedisKey;
use doc_auth::lifecycle::{
    login_user, logout_lookup_key, logout_user, refresh_begin, refresh_finish, refresh_lookup_keys,
    LoginPayload, RefreshPayload, RegistrationPayload, StoreCommand,
};
use doc_auth::store::RedisClient;
use doc_auth::signer::{decode_access_token, decode_refresh_token, sign_access, sign_refresh, SigningKeys, TokenError};
use doc_auth::tokens::{create_tokens, AuthenticationTokens};

const ACCESS_PRIVATE_DER: [u8; 1191] = [
    48, 130, 4, 163, 2, 1, 0, 2, 130, 1, 1, 0, 223, 225, 78, 3, 3, 156, 251, 144, 225, 110, 191, 134,
    79, 33, 31, 28, 91, 124, 241, 128, 240, 155, 71, 91, 7, 107, 147, 183, 15, 226, 102, 201, 122, 88, 14, 9,
    130, 69, 166, 151, 168, 131, 67, 218, 105, 212, 15, 161, 175, 31, 17, 188, 14, 29, 103, 59, 219, 98, 8, 189,
    211, 159, 165, 195, 103, 236, 131, 32, 31, 233, 130, 242, 166, 84, 72, 182, 68, 73, 176, 55, 105, 130, 208, 222,
    248, 28, 159, 170, 224, 190, 84, 88, 229, 151, 183, 178, 210, 159, 254, 57, 219, 25, 246, 68, 127, 113, 101, 240,
    120, 60, 50, 113, 1, 164, 37, 253, 188, 97, 82, 221, 231, 184, 189, 144, 28, 29, 87, 157, 30, 239, 212, 180,
    76, 109, 142, 81, 133, 178, 227, 95, 174, 123, 41, 20, 54, 0, 205, 119, 18, 184, 17, 100, 106, 182, 61, 13,
    36, 160, 79, 126, 157, 187, 96, 82, 17, 116, 198, 208, 254, 245, 152, 249, 8, 121, 129, 64, 237, 241, 152, 137,
    202, 106, 203, 141, 161, 115, 223, 170, 223, 78, 55, 77, 6, 208, 151, 25, 216, 180, 149, 243, 18, 167, 188, 10,
    207, 247, 60, 86, 115, 182, 107, 30, 184, 93, 151, 93, 244, 139, 86, 165, 216, 40, 108, 191, 231, 146, 105, 204,
    216, 190, 208, 204, 254, 180, 35, 81, 206, 219, 187, 167, 212, 249, 199, 14, 25, 68, 44, 157, 51, 123, 252, 110,
    72, 184, 206, 237, 2, 3, 1, 0, 1, 2, 130, 1, 0, 11, 47, 44, 64, 134, 75, 175, 93, 155, 133, 118,
    215, 244, 216, 8, 191, 215, 234, 51, 254, 103, 6, 186, 215, 215, 85, 14, 122, 20, 183, 16, 191, 123, 247, 46,
    44, 87, 111, 183, 84, 216, 60, 70, 133, 128, 199, 241, 71, 248, 129, 170, 215, 36, 53, 95, 212, 227, 174, 208,
    20, 251, 159, 124, 30, 120, 240, 157, 212, 91, 3, 197, 96, 237, 226, 68, 7, 166, 253, 175, 105, 245, 65, 109,
    193, 213, 207, 72, 66, 183, 27, 139, 7, 45, 225, 24, 114, 60, 135, 117, 161, 218, 74, 63, 189, 72, 72, 151,
    249, 29, 104, 148, 116, 132, 202, 120, 131, 102, 135, 206, 37, 251, 207, 132, 216, 208, 46, 191, 19, 168, 109, 0,
    74, 89, 49, 180, 37, 6, 162, 65, 4, 34, 145, 88, 182, 79, 193, 89, 208, 215, 191, 9, 192, 38, 149, 236,
    138, 52, 229, 163, 143, 249, 243, 77, 99, 146, 215, 109, 128, 109, 34, 94, 117, 204, 207, 153, 209, 233, 129, 55,
    225, 137, 99, 211, 69, 97, 31, 54, 76, 128, 32, 77, 59, 208, 14, 236, 98, 56, 189, 189, 118, 59, 115, 216,
    231, 219, 192, 127, 207, 159, 52, 48, 104, 135, 255, 235, 110, 70, 27, 64, 143, 0, 111, 65, 68, 169, 159, 14,
    125, 230, 33, 155, 213, 58, 138, 53, 247, 77, 101, 254, 94, 84, 157, 25, 229, 5, 184, 216, 227, 124, 85, 188,
    83, 7, 242, 70, 89, 2, 129, 129, 0, 244, 213, 37, 173, 66, 14, 59, 85, 226, 179, 51, 52, 95, 6, 30,
    137, 89, 13, 54, 105, 231, 41, 199, 134, 163, 144, 81, 174, 76, 42, 89, 142, 207, 194, 206, 55, 98, 245, 242,
    193, 97, 73, 139, 148, 123, 32, 236, 61, 83, 151, 134, 201, 72, 135, 105, 150, 62, 43, 14, 173, 56, 251, 91,
    191, 230, 203, 61, 43, 177, 110, 225, 9, 28, 134, 225, 231, 117, 245, 180, 15, 30, 95, 70, 220, 101, 178, 207,
    225, 214, 117, 64, 47, 78, 242, 27, 47, 228, 229, 119, 22, 73, 63, 141, 114, 65, 255, 11, 37, 58, 224, 92,
    25, 240, 34, 90, 77, 246, 152, 138, 0, 45, 179, 104, 44, 120, 48, 134, 187, 2, 129, 129, 0, 234, 23, 128,
    1, 195, 134, 200, 214, 211, 96, 172, 98, 179, 229, 97, 132, 186, 66, 192, 242, 118, 121, 15, 73, 47, 235, 88,
    12, 1, 154, 12, 164, 119, 60, 6, 18, 136, 26, 103, 58, 186, 98, 109, 102, 44, 71, 84, 159, 65, 232, 29,
    27, 228, 117, 180, 193, 103, 157, 239, 50, 1, 70, 181, 178, 142, 94, 196, 166, 153, 31, 96, 120, 10, 235, 207,
    94, 225, 224, 25, 180, 184, 248, 183, 92, 24, 36, 245, 154, 85, 243, 201, 168, 168, 79, 253, 31, 48, 52, 134,
    27, 177, 40, 121, 21, 190, 40, 159, 83, 225, 74, 93, 126, 245, 238, 135, 163, 140, 21, 77, 131, 191, 200, 215,
    33, 27, 246, 170, 119, 2, 129, 129, 0, 166, 45, 226, 163, 229, 249, 8, 247, 51, 167, 148, 114, 208, 168, 179,
    163, 96, 41, 98, 172, 161, 53, 175, 115, 72, 163, 213, 125, 43, 191, 119, 8, 67, 38, 163, 151, 222, 120, 183,
    235, 224, 31, 238, 56, 187, 22, 78, 163, 21, 144, 252, 240, 180, 101, 13, 26, 232, 89, 139, 93, 178, 22, 146,
    96, 255, 195, 37, 98, 249, 205, 27, 187, 118, 124, 106, 235, 19, 26, 209, 187, 141, 78, 248, 38, 242, 116, 91,
    59, 155, 183, 251, 247, 224, 106, 222, 95, 52, 203, 55, 120, 142, 1, 47, 253, 196, 163, 219, 41, 202, 251, 172,
    40, 2, 225, 30, 80, 90, 183, 144, 187, 172, 73, 96, 197, 6, 83, 81, 175, 2, 129, 128, 116, 99, 244, 208,
    107, 176, 51, 97, 164, 189, 151, 88, 136, 11, 143, 190, 23, 130, 35, 63, 42, 170, 172, 111, 254, 52, 108, 149,
    163, 162, 61, 144, 244, 123, 210, 165, 26, 40, 206, 148, 195, 161, 54, 181, 171, 100, 87, 237, 203, 46, 38, 114,
    252, 215, 141, 100, 240, 40, 245, 138, 14, 90, 98, 243, 1, 152, 154, 252, 30, 124, 28, 81, 243, 84, 37, 202,
    14, 82, 135, 85, 116, 246, 172, 236, 76, 80, 236, 16, 173, 149, 197, 249, 102, 158, 70, 195, 96, 11, 109, 118,
    141, 82, 11, 74, 69, 63, 27, 96, 240, 78, 50, 72, 114, 237, 3, 97, 204, 191, 182, 199, 191, 238, 147, 16,
    50, 64, 37, 167, 2, 129, 128, 11, 6, 138, 227, 75, 56, 63, 205, 33, 191, 50, 68, 222, 143, 113, 98, 197,
    246, 160, 39, 43, 93, 55, 180, 123, 40, 70, 29, 141, 12, 244, 160, 154, 149, 84, 229, 228, 106, 243, 148, 251,
    146, 67, 21, 10, 189, 69, 115, 34, 47, 203, 105, 188, 167, 41, 147, 97, 11, 70, 171, 170, 251, 229, 40, 129,
    129, 123, 153, 34, 149, 148, 88, 119, 4, 228, 12, 69, 190, 66, 195, 192, 165, 99, 97, 239, 185, 189, 6, 185,
    90, 91, 144, 177, 142, 20, 111, 126, 3, 3, 251, 63, 169, 216, 46, 148, 195, 112, 6, 102, 19, 76, 225, 159,
    249, 162, 171, 8, 94, 148, 204, 174, 50, 54, 26, 147, 243, 231, 45,
];
const ACCESS_PUBLIC_DER: [u8; 294] = [
    48, 130, 1, 34, 48, 13, 6, 9, 42, 134, 72, 134, 247, 13, 1, 1, 1, 5, 0, 3, 130, 1, 15, 0,
    48, 130, 1, 10, 2, 130, 1, 1, 0, 223, 225, 78, 3, 3, 156, 251, 144, 225, 110, 191, 134, 79, 33, 31,
    28, 91, 124, 241, 128, 240, 155, 71, 91, 7, 107, 147, 183, 15, 226, 102, 201, 122, 88, 14, 9, 130, 69, 166,
    151, 168, 131, 67, 218, 105, 212, 15, 161, 175, 31, 17, 188, 14, 29, 103, 59, 219, 98, 8, 189, 211, 159, 165,
    195, 103, 236, 131, 32, 31, 233, 130, 242, 166, 84, 72, 182, 68, 73, 176, 55, 105, 130, 208, 222, 248, 28, 159,
    170, 224, 190, 84, 88, 229, 151, 183, 178, 210, 159, 254, 57, 219, 25, 246, 68, 127, 113, 101, 240, 120, 60, 50,
    113, 1, 164, 37, 253, 188, 97, 82, 221, 231, 184, 189, 144, 28, 29, 87, 157, 30, 239, 212, 180, 76, 109, 142,
    81, 133, 178, 227, 95, 174, 123, 41, 20, 54, 0, 205, 119, 18, 184, 17, 100, 106, 182, 61, 13, 36, 160, 79,
    126, 157, 187, 96, 82, 17, 116, 198, 208, 254, 245, 152, 249, 8, 121, 129, 64, 237, 241, 152, 137, 202, 106, 203,
    141, 161, 115, 223, 170, 223, 78, 55, 77, 6, 208, 151, 25, 216, 180, 149, 243, 18, 167, 188, 10, 207, 247, 60,
    86, 115, 182, 107, 30, 184, 93, 151, 93, 244, 139, 86, 165, 216, 40, 108, 191, 231, 146, 105, 204, 216, 190, 208,
    204, 254, 180, 35, 81, 206, 219, 187, 167, 212, 249, 199, 14, 25, 68, 44, 157, 51, 123, 252, 110, 72, 184, 206,
    237, 2, 3, 1, 0, 1,
];
const REFRESH_PRIVATE_DER: [u8; 1191] = [
    48, 130, 4, 163, 2, 1, 0, 2, 130, 1, 1, 0, 188, 107, 140, 109, 235, 93, 59, 71, 250, 205, 105, 203,
    18, 89, 216, 153, 198, 175, 115, 139, 137, 141, 144, 124, 82, 208, 226, 226, 226, 70, 172, 46, 242, 90, 150, 95,
    104, 9, 135, 86, 11, 138, 190, 135, 40, 11, 208, 95, 68, 155, 187, 112, 128, 231, 60, 82, 11, 254, 166, 123,
    253, 190, 5, 148, 22, 82, 23, 112, 79, 46, 245, 184, 36, 26, 14, 178, 97, 90, 211, 85, 160, 121, 89, 195,
    12, 34, 228, 149, 226, 176, 93, 254, 153, 32, 152, 185, 162, 47, 230, 205, 117, 190, 218, 125, 80, 11, 73, 90,
    247, 18, 51, 88, 70, 115, 163, 227, 232, 106, 211, 26, 249, 92, 234, 145, 10, 60, 76, 156, 13, 178, 213, 143,
    156, 203, 93, 100, 160, 204, 165, 47, 238, 233, 230, 8, 239, 170, 82, 122, 34, 182, 194, 66, 2, 128, 237, 15,
    251, 111, 115, 119, 4, 187, 171, 208, 219, 69, 153, 75, 193, 42, 122, 196, 56, 138, 37, 67, 215, 19, 167, 34,
    70, 196, 224, 30, 214, 6, 101, 232, 230, 78, 111, 235, 204, 208, 231, 58, 39, 211, 4, 156, 110, 92, 147, 30,
    66, 20, 38, 243, 188, 177, 157, 177, 4, 192, 225, 144, 169, 41, 26, 209, 254, 159, 15, 211, 147, 157, 137, 172,
    90, 127, 49, 47, 3, 137, 181, 213, 230, 36, 162, 118, 30, 26, 149, 212, 17, 137, 209, 125, 176, 119, 241, 62,
    178, 39, 223, 3, 2, 3, 1, 0, 1, 2, 130, 1, 0, 25, 14, 166, 108, 193, 197, 178, 202, 6, 65, 6,
    6, 51, 9, 14, 196, 152, 135, 33, 179, 23, 86, 99, 182, 28, 223, 89, 164, 249, 153, 147, 113, 100, 218, 134,
    47, 230, 234, 137, 124, 120, 105, 121, 160, 8, 195, 213, 112, 173, 243, 149, 240, 70, 188, 57, 169, 225, 157, 122,
    111, 119, 213, 170, 241, 64, 44, 167, 160, 80, 111, 122, 207, 3, 194, 17, 93, 72, 148, 39, 17, 182, 151, 28,
    200, 83, 23, 90, 213, 210, 1, 73, 102, 191, 223, 117, 96, 14, 129, 23, 77, 16, 145, 18, 134, 98, 188, 53,
    131, 170, 226, 217, 64, 46, 146, 87, 99, 202, 55, 86, 158, 186, 53, 208, 157, 252, 65, 251, 159, 244, 174, 124,
    76, 8, 84, 205, 64, 133, 80, 125, 231, 248, 166, 205, 24, 211, 181, 32, 229, 72, 50, 252, 125, 223, 93, 128,
    122, 43, 252, 61, 174, 5, 57, 135, 101, 51, 24, 76, 97, 95, 193, 65, 253, 47, 68, 154, 218, 128, 222, 11,
    13, 84, 97, 238, 78, 236, 44, 5, 220, 174, 231, 232, 246, 49, 116, 74, 237, 86, 246, 124, 220, 154, 230, 146,
    205, 71, 56, 147, 76, 41, 40, 177, 8, 16, 126, 11, 119, 228, 242, 120, 239, 159, 146, 34, 40, 139, 248, 168,
    21, 87, 68, 97, 129, 73, 237, 66, 225, 83, 58, 53, 23, 100, 71, 137, 254, 23, 87, 252, 231, 171, 255, 93,
    18, 49, 253, 165, 49, 2, 129, 129, 0, 233, 99, 131, 38, 126, 169, 59, 224, 242, 227, 205, 29, 148, 219, 95,
    5, 198, 219, 109, 143, 133, 41, 139, 49, 24, 255, 201, 214, 139, 19, 142, 139, 217, 18, 6, 130, 251, 67, 51,
    165, 138, 218, 155, 58, 88, 101, 8, 236, 106, 128, 152, 22, 215, 116, 56, 93, 82, 208, 44, 20, 49, 41, 112,
    179, 43, 32, 84, 124, 34, 92, 63, 184, 32, 180, 61, 184, 91, 143, 255, 208, 123, 80, 225, 98, 150, 116, 136,
    135, 232, 89, 155, 164, 28, 154, 187, 177, 76, 240, 87, 160, 207, 162, 241, 245, 42, 202, 210, 226, 224, 197, 212,
    108, 185, 119, 228, 176, 95, 123, 112, 38, 105, 210, 148, 204, 224, 5, 106, 147, 2, 129, 129, 0, 206, 172, 186,
    130, 1, 236, 235, 91, 25, 64, 173, 104, 150, 206, 132, 52, 21, 247, 124, 14, 193, 142, 19, 116, 155, 175, 58,
    119, 204, 125, 99, 163, 252, 237, 201, 150, 120, 120, 65, 188, 90, 250, 242, 229, 164, 209, 89, 163, 194, 8, 160,
    91, 62, 57, 166, 146, 19, 103, 191, 105, 188, 244, 122, 10, 140, 67, 56, 159, 69, 102, 53, 57, 216, 41, 21,
    128, 100, 233, 143, 254, 3, 2, 60, 183, 168, 164, 247, 151, 88, 190, 254, 28, 148, 254, 84, 111, 224, 40, 177,
    70, 44, 220, 64, 240, 117, 216, 110, 149, 246, 219, 240, 94, 234, 144, 68, 97, 218, 128, 26, 226, 156, 4, 116,
    60, 39, 149, 207, 209, 2, 129, 128, 87, 15, 94, 249, 250, 31, 169, 13, 133, 173, 130, 115, 57, 119, 7, 160,
    65, 8, 211, 122, 201, 34, 177, 32, 148, 129, 190, 74, 0, 193, 63, 216, 93, 22, 3, 69, 210, 242, 195, 142,
    74, 24, 183, 244, 240, 202, 103, 164, 193, 41, 205, 18, 32, 54, 227, 91, 180, 171, 160, 245, 187, 77, 9, 20,
    92, 207, 7, 148, 242, 192, 84, 168, 155, 210, 128, 127, 135, 240, 84, 109, 241, 194, 63, 1, 38, 188, 187, 189,
    110, 232, 22, 78, 6, 185, 149, 176, 82, 210, 8, 238, 28, 230, 92, 185, 166, 199, 216, 24, 247, 221, 244, 26,
    198, 168, 185, 175, 45, 62, 255, 155, 228, 183, 191, 248, 24, 205, 12, 111, 2, 129, 128, 122, 158, 170, 141, 101,
    221, 14, 10, 95, 162, 43, 0, 73, 177, 63, 104, 179, 187, 192, 227, 244, 92, 122, 24, 142, 33, 217, 187, 168,
    28, 160, 216, 115, 193, 21, 0, 108, 123, 84, 237, 14, 193, 163, 9, 50, 207, 110, 178, 164, 245, 127, 70, 131,
    85, 171, 9, 49, 240, 52, 245, 228, 64, 220, 131, 147, 146, 114, 110, 180, 187, 30, 75, 50, 127, 181, 157, 22,
    194, 40, 71, 89, 187, 163, 16, 136, 67, 80, 14, 128, 125, 216, 192, 86, 121, 202, 217, 17, 146, 179, 18, 226,
    156, 206, 254, 155, 188, 140, 103, 247, 45, 168, 160, 119, 228, 158, 93, 188, 72, 147, 42, 237, 204, 10, 182, 129,
    249, 245, 113, 2, 129, 129, 0, 155, 241, 133, 198, 87, 81, 42, 45, 210, 14, 219, 110, 35, 51, 171, 35, 130,
    243, 145, 113, 19, 195, 52, 215, 70, 104, 217, 240, 155, 181, 95, 36, 147, 52, 171, 10, 44, 11, 242, 112, 233,
    111, 250, 52, 83, 238, 209, 14, 227, 50, 32, 120, 58, 159, 233, 183, 1, 39, 188, 197, 0, 90, 142, 140, 73,
    238, 249, 166, 160, 150, 145, 135, 38, 241, 63, 249, 34, 152, 94, 139, 90, 92, 243, 33, 27, 23, 104, 33, 140,
    20, 36, 179, 239, 31, 251, 62, 51, 147, 165, 167, 251, 205, 14, 243, 155, 15, 0, 99, 148, 193, 67, 233, 153,
    7, 192, 163, 37, 72, 213, 96, 78, 148, 59, 242, 7, 169, 250, 55,
];
const REFRESH_PUBLIC_DER: [u8; 294] = [
    48, 130, 1, 34, 48, 13, 6, 9, 42, 134, 72, 134, 247, 13, 1, 1, 1, 5, 0, 3, 130, 1, 15, 0,
    48, 130, 1, 10, 2, 130, 1, 1, 0, 188, 107, 140, 109, 235, 93, 59, 71, 250, 205, 105, 203, 18, 89, 216,
    153, 198, 175, 115, 139, 137, 141, 144, 124, 82, 208, 226, 226, 226, 70, 172, 46, 242, 90, 150, 95, 104, 9, 135,
    86, 11, 138, 190, 135, 40, 11, 208, 95, 68, 155, 187, 112, 128, 231, 60, 82, 11, 254, 166, 123, 253, 190, 5,
    148, 22, 82, 23, 112, 79, 46, 245, 184, 36, 26, 14, 178, 97, 90, 211, 85, 160, 121, 89, 195, 12, 34, 228,
    149, 226, 176, 93, 254, 153, 32, 152, 185, 162, 47, 230, 205, 117, 190, 218, 125, 80, 11, 73, 90, 247, 18, 51,
    88, 70, 115, 163, 227, 232, 106, 211, 26, 249, 92, 234, 145, 10, 60, 76, 156, 13, 178, 213, 143, 156, 203, 93,
    100, 160, 204, 165, 47, 238, 233, 230, 8, 239, 170, 82, 122, 34, 182, 194, 66, 2, 128, 237, 15, 251, 111, 115,
    119, 4, 187, 171, 208, 219, 69, 153, 75, 193, 42, 122, 196, 56, 138, 37, 67, 215, 19, 167, 34, 70, 196, 224,
    30, 214, 6, 101, 232, 230, 78, 111, 235, 204, 208, 231, 58, 39, 211, 4, 156, 110, 92, 147, 30, 66, 20, 38,
    243, 188, 177, 157, 177, 4, 192, 225, 144, 169, 41, 26, 209, 254, 159, 15, 211, 147, 157, 137, 172, 90, 127, 49,
    47, 3, 137, 181, 213, 230, 36, 162, 118, 30, 26, 149, 212, 17, 137, 209, 125, 176, 119, 241, 62, 178, 39, 223,
    3, 2, 3, 1, 0, 1,
];

fn base64(data: &[u8]) -> String {
    let table = b"ABCDEFGHIJKLMNOPQRSTUVWXYZabcdefghijklmnopqrstuvwxyz0123456789+/";
    let mut out = String::new();
    for chunk in data.chunks(3) {
        let b = [chunk[0], *chunk.get(1).unwrap_or(&0), *chunk.get(2).unwrap_or(&0)];
        let n = ((b[0] as u32) << 16) | ((b[1] as u32) << 8) | (b[2] as u32);
        for i in 0..4 {
            if i <= chunk.len() {
                out.push(table[((n >> (18 - 6 * i)) & 63) as usize] as char);
            } else {
                out.push('=');
            }
        }
    }
    out
}

/// PEM text of DER key material, under the given label.
fn pem(label: &str, der: &[u8]) -> Vec<u8> {
    let body = base64(der);
    let mut text = format!("-----BEGIN {}-----\n", label);
    for line in body.as_bytes().chunks(64) {
        text.push_str(std::str::from_utf8(line).unwrap());
        text.push('\n');
    }
    text.push_str(&format!("-----END {}-----\n", label));
    text.into_bytes()
}

const NOW: u32 = 1_700_000_000;

fn private_label() -> String {
    ["RSA", "PRIVATE", "KEY"].join(" ")
}

fn keys() -> SigningKeys {
    SigningKeys {
        access_private: pem(&private_label(), &ACCESS_PRIVATE_DER),
        access_public: pem("PUBLIC KEY", &ACCESS_PUBLIC_DER),
        refresh_private: pem(&private_label(), &REFRESH_PRIVATE_DER),
        refresh_public: pem("PUBLIC KEY", &REFRESH_PUBLIC_DER),
    }
}

fn hash_of(password: &str) -> String {
    let salt = SaltString::from_b64("c29tZXNhbHR2YWx1ZQ").unwrap();
    argon2::Argon2::default()
        .hash_password(password.as_bytes(), &salt)
        .unwrap()
        .to_string()
}

/// A store held in memory, playing the part of the outside key-value store.
struct Store {
    records: RedisClient,
    accounts: std::collections::HashMap<String, String>,
    counter: u32,
}

impl Store {
    fn new() -> Store {
        Store { records: RedisClient::new(), accounts: std::collections::HashMap::new(), counter: 0 }
    }

    fn apply(&mut self, commands: Vec<StoreCommand>) {
        self.records.execute_raw(&commands);
    }

    fn fresh(&mut self) -> String {
        self.counter += 1;
        format!("00000000-0000-4000-8000-{:012}", self.counter)
    }

    fn login(&mut self, user: &str, password: &str, device: &str, now: u32) -> Result<AuthenticationTokens, ServiceError> {
        let hash = self.accounts.get(user).cloned();
        let (ja, jr) = (self.fresh(), self.fresh());
        let payload = LoginPayload {
            username: user.to_string(),
            password: password.to_string(),
            device_id: device.to_string(),
        };
        let (writes, outcome) = login_user(payload, hash, now, ja, jr, &keys());
        self.apply(writes);
        outcome
    }

    fn refresh(&mut self, token: &str, now: u32) -> Result<AuthenticationTokens, ServiceError> {
        let payload = RefreshPayload { refresh_token: token.to_string() };
        let claims = refresh_begin(&payload, now, &keys())?;
        let (refresh_key, access_key) = refresh_lookup_keys(&claims);
        let record = self.records.get(&refresh_key).ok();
        let access_exists = self.records.key_exists(&access_key);
        let (ja, jr) = (self.fresh(), self.fresh());
        let (writes, outcome) = refresh_finish(&claims, record, access_exists, now, ja, jr, &keys());
        self.apply(writes);
        outcome
    }

    fn logout(&mut self, claims: &SessionClaims) -> Result<(), ServiceError> {
        let record = self.records.get(&logout_lookup_key(claims)).ok();
        let (writes, outcome) = logout_user(claims, record);
        self.apply(writes);
        outcome
    }

    fn gate(&self, header: Option<&str>, path: &str, now: u32) -> Result<Option<SessionClaims>, ServiceError> {
        let gate = AuthenticationMiddleware::new();
        match gate.begin(header, path, now, &keys()) {
            GateStep::Pass => Ok(None),
            GateStep::Reject(e) => Err(e),
            GateStep::Check(c) => {
                let exists = self.records.key_exists(&logout_lookup_key(&c));
                gate.finish(c, exists).map(Some)
            }
        }
    }
}

fn alice_store() -> Store {
    let mut store = Store::new();
    store.accounts.insert("alice".to_string(), hash_of("pw"));
    store
}

fn kind<T>(r: Result<T, ServiceError>) -> ErrorKind {
    match r {
        Ok(_) => panic!("expected a failure"),
        Err(e) => e.kind(),
    }
}

fn bearer(token: &str) -> String {
    format!("Bearer {}", token)
}

const PROTECTED: &str = "/api/v1/files/upload";

#[test]
fn sign_then_verify_gives_back_the_claims() {
    let claims = SessionClaims::issue("alice".to_string(), "dev1".to_string(), NOW, "jti-1".to_string()).unwrap();
    let token = sign_access(&claims, &keys()).unwrap();
    assert_ne!(token, claims.to_json());
    assert_eq!(token.matches('.').count(), 2);
    let back = decode_access_token(&token, NOW + 10, &keys()).unwrap();
    assert_eq!(back.username, "alice");
    assert_eq!(back.device_id, "dev1");
    assert_eq!(back.exp, NOW + 21600);
    assert_eq!(back.iat, NOW);
    assert_eq!(back.iss, "doc-storage-authenticator");
    assert_eq!(back.jti, "jti-1");
}

#[test]
fn refresh_claims_sign_then_verify() {
    let claims = SessionRefreshClaims::issue("a-1".to_string(), NOW, "r-1".to_string()).unwrap();
    let token = sign_refresh(&claims, &keys()).unwrap();
    let back = decode_refresh_token(&token, NOW + 1, &keys()).unwrap();
    assert_eq!(back.access_token_jti, "a-1");
    assert_eq!(back.jti, "r-1");
    assert_eq!(back.exp, NOW + 7776000);
}

#[test]
fn token_of_one_class_is_refused_as_the_other() {
    let claims = SessionClaims::issue("alice".to_string(), "dev1".to_string(), NOW, "jti-1".to_string()).unwrap();
    let token = sign_access(&claims, &keys()).unwrap();
    assert_eq!(decode_refresh_token(&token, NOW, &keys()).unwrap_err(), TokenError::BadSignature);
}

#[test]
fn tampered_token_is_refused() {
    let claims = SessionClaims::issue("alice".to_string(), "dev1".to_string(), NOW, "jti-1".to_string()).unwrap();
    let token = sign_access(&claims, &keys()).unwrap();
    let mut bad = token.clone();
    bad.push('A');
    assert_eq!(decode_access_token(&bad, NOW, &keys()).unwrap_err(), TokenError::BadSignature);
    assert_eq!(decode_access_token("not-a-token", NOW, &keys()).unwrap_err(), TokenError::BadSignature);
}

#[test]
fn expired_access_token_is_expired() {
    let claims = SessionClaims::issue("alice".to_string(), "dev1".to_string(), NOW, "jti-1".to_string()).unwrap();
    let token = sign_access(&claims, &keys()).unwrap();
    assert_eq!(decode_access_token(&token, NOW + 21600, &keys()).unwrap_err(), TokenError::Expired);
    assert!(decode_access_token(&token, NOW + 21599, &keys()).is_ok());
}

#[test]
fn wrong_issuer_is_refused() {
    let mut claims = SessionClaims::issue("alice".to_string(), "dev1".to_string(), NOW, "jti-1".to_string()).unwrap();
    claims.iss = "someone-else".to_string();
    let token = sign_access(&claims, &keys()).unwrap();
    assert_eq!(decode_access_token(&token, NOW, &keys()).unwrap_err(), TokenError::WrongIssuer);
}

#[test]
fn missing_key_material_fails_signing() {
    let claims = SessionClaims::issue("alice".to_string(), "dev1".to_string(), NOW, "jti-1".to_string()).unwrap();
    let mut k = keys();
    k.access_private = Vec::new();
    assert_eq!(kind(sign_access(&claims, &k)), ErrorKind::DependencyUnavailable);
}

#[test]
fn access_claims_json_text() {
    let claims = SessionClaims::issue("al\"ice".to_string(), "d\\1".to_string(), 5, "j".to_string()).unwrap();
    let text = claims.to_json();
    assert_eq!(
        text,
        "{\"username\":\"al\\\"ice\",\"device_id\":\"d\\\\1\",\"exp\":21605,\"iat\":5,\"iss\":\"doc-storage-authenticator\",\"jti\":\"j\"}"
    );
    let back = SessionClaims::from_json(&text).unwrap();
    assert_eq!(back.username, "al\"ice");
    assert_eq!(back.device_id, "d\\1");
    assert_eq!(back.exp, 21605);
}

#[test]
fn refresh_claims_json_text() {
    let claims = SessionRefreshClaims::issue("a".to_string(), 0, "r".to_string()).unwrap();
    let text = claims.to_json();
    assert_eq!(
        text,
        "{\"access_token_jti\":\"a\",\"exp\":7776000,\"iat\":0,\"iss\":\"doc-storage-authenticator\",\"jti\":\"r\"}"
    );
    assert_eq!(SessionRefreshClaims::from_json(&text).unwrap().access_token_jti, "a");
}

#[test]
fn json_parse_rejects_other_shapes() {
    assert!(SessionClaims::from_json("{}").is_none());
    assert!(SessionClaims::from_json("{\"username\":\"a\",\"device_id\":\"b\",\"exp\":1}").is_none());
    assert!(SessionClaims::from_json(
        "{\"username\":\"a\",\"device_id\":\"b\",\"exp\":99999999999,\"iat\":1,\"iss\":\"i\",\"jti\":\"j\"}"
    )
    .is_none());
    assert!(SessionRefreshClaims::from_json("").is_none());
}

#[test]
fn control_characters_round_trip() {
    let claims = SessionClaims::issue("a\nb\u{1f}".to_string(), "d".to_string(), 1, "j".to_string()).unwrap();
    let text = claims.to_json();
    assert!(text.starts_with("{\"username\":\"a\\u000ab\\u001f\""));
    let back = SessionClaims::from_json(&text).unwrap();
    assert_eq!(back.username, "a\nb\u{1f}");
    let token = sign_access(&claims, &keys()).unwrap();
    assert_eq!(decode_access_token(&token, 2, &keys()).unwrap().username, "a\nb\u{1f}");
}

#[test]
fn claims_time_range() {
    assert_eq!(claims_time(0).unwrap(), 0);
    assert_eq!(claims_time(4294967295).unwrap(), u32::MAX);
    assert_eq!(claims_time(-1).unwrap_err().kind(), ErrorKind::InternalServerError);
    assert_eq!(claims_time(4294967296).unwrap_err().kind(), ErrorKind::InternalServerError);
}

#[test]
fn wrong_password_message() {
    let mut store = alice_store();
    match store.login("alice", "nope", "dev1", NOW) {
        Ok(_) => panic!("expected a failure"),
        Err(e) => assert_eq!(e.message(), "Bad request: Invalid password"),
    }
}

#[test]
fn issue_fails_past_the_clock_range() {
    assert!(SessionClaims::issue("a".to_string(), "d".to_string(), u32::MAX - 10, "j".to_string()).is_none());
    assert!(SessionRefreshClaims::issue("a".to_string(), u32::MAX - 10, "j".to_string()).is_none());
}

#[test]
fn store_keys_text() {
    assert_eq!(RedisKey::Base.to_string(), "doc_storage");
    assert_eq!(RedisKey::Account("bob".to_string()).to_string(), "doc_storage:account:bob");
    assert_eq!(RedisKey::Session("x".to_string()).to_string(), "doc_storage:session:x");
    assert_eq!(RedisKey::SessionRefresh("x".to_string()).to_string(), "doc_storage:session:refresh:x");
    assert_eq!(RedisKey::Other("y".to_string()).to_string(), "doc_storage:y");
}

#[test]
fn token_lifetimes() {
    assert_eq!(TokenType::AccessToken.get_expiration(), 21600);
    assert_eq!(TokenType::RefreshToken.get_expiration(), 7776000);
}

#[test]
fn error_statuses_and_messages() {
    assert_eq!(ServiceError::InternalServerError("x".to_string()).status_code(), 500);
    assert_eq!(ServiceError::BadRequest("x".to_string()).status_code(), 400);
    assert_eq!(ServiceError::NotFound("x".to_string()).status_code(), 404);
    assert_eq!(ServiceError::Conflict("x".to_string()).status_code(), 409);
    assert_eq!(ServiceError::DependencyUnavailable.status_code(), 503);
    assert_eq!(ServiceError::MissingToken.status_code(), 401);
    assert_eq!(ServiceError::InvalidToken.status_code(), 401);
    assert_eq!(ServiceError::ExpiredToken.status_code(), 401);
    assert_eq!(ServiceError::InternalServerError("secret detail".to_string()).message(), "Internal server error");
    assert_eq!(ServiceError::BadRequest("bad".to_string()).message(), "Bad request: bad");
    assert_eq!(ServiceError::ExpiredToken.message(), "Expired token, please refresh it");
    assert_eq!(ServiceError::from("oops".to_string()).kind(), ErrorKind::BadRequest);
}

#[test]
fn create_tokens_links_the_pair() {
    let t = create_tokens("alice".to_string(), "dev1".to_string(), NOW, "a1".to_string(), "r1".to_string(), &keys()).unwrap();
    assert_eq!(t.session.jti, "a1");
    assert_eq!(t.refresh_session.jti, "r1");
    assert_eq!(t.refresh_session.access_token_jti, "a1");
    assert_eq!(decode_access_token(&t.access_token, NOW, &keys()).unwrap().username, "alice");
    assert_eq!(decode_refresh_token(&t.refresh_token, NOW, &keys()).unwrap().access_token_jti, "a1");
}

#[test]
fn create_tokens_refuses_colliding_or_bad_ids() {
    let same = create_tokens("a".to_string(), "d".to_string(), NOW, "x".to_string(), "x".to_string(), &keys());
    assert_eq!(kind(same), ErrorKind::InternalServerError);
    let colon = create_tokens("a".to_string(), "d".to_string(), NOW, "x:y".to_string(), "z".to_string(), &keys());
    assert_eq!(kind(colon), ErrorKind::InternalServerError);
}

#[test]
fn login_pair_has_distinct_linked_jtis() {
    let mut store = alice_store();
    let t = store.login("alice", "pw", "dev1", NOW).unwrap();
    assert_ne!(t.session.jti, t.refresh_session.jti);
    assert_eq!(t.refresh_session.access_token_jti, t.session.jti);
    let under_access = store.records.get(&RedisKey::Session(t.session.jti.clone())).unwrap();
    assert_eq!(SessionRefreshClaims::from_json(&under_access).unwrap().jti, t.refresh_session.jti);
    let under_refresh = store.records.get(&RedisKey::SessionRefresh(t.refresh_session.jti.clone())).unwrap();
    assert_eq!(SessionClaims::from_json(&under_refresh).unwrap().jti, t.session.jti);
}

#[test]
fn login_with_wrong_password_is_bad_request() {
    let mut store = alice_store();
    assert_eq!(kind(store.login("alice", "nope", "dev1", NOW)), ErrorKind::BadRequest);
    assert!(!store.records.key_exists(&RedisKey::Session("00000000-0000-4000-8000-000000000001".to_string())));
}

#[test]
fn login_of_unknown_account_is_not_found() {
    let mut store = alice_store();
    assert_eq!(kind(store.login("bob", "pw", "dev1", NOW)), ErrorKind::NotFound);
}

#[test]
fn login_with_unreadable_hash_is_internal() {
    let mut store = Store::new();
    store.accounts.insert("carol".to_string(), "not-a-phc-string".to_string());
    assert_eq!(kind(store.login("carol", "pw", "dev1", NOW)), ErrorKind::InternalServerError);
}

#[test]
fn two_logins_make_two_sessions() {
    let mut store = alice_store();
    let a = store.login("alice", "pw", "dev1", NOW).unwrap();
    let b = store.login("alice", "pw", "dev2", NOW).unwrap();
    assert_ne!(a.session.jti, b.session.jti);
    assert!(store.records.key_exists(&RedisKey::Session(a.session.jti.clone())));
    assert!(store.records.key_exists(&RedisKey::Session(b.session.jti.clone())));
}

#[test]
fn refresh_twice_with_same_token_is_invalid() {
    let mut store = alice_store();
    let t = store.login("alice", "pw", "dev1", NOW).unwrap();
    let r = store.refresh(&t.refresh_token, NOW + 5).unwrap();
    assert_eq!(r.session.username, "alice");
    assert_eq!(kind(store.refresh(&t.refresh_token, NOW + 6)), ErrorKind::InvalidToken);
    assert!(!store.records.key_exists(&RedisKey::Session(t.session.jti.clone())));
    assert!(store.records.key_exists(&RedisKey::Session(r.session.jti.clone())));
}

#[test]
fn refresh_with_garbage_is_invalid() {
    let mut store = alice_store();
    assert_eq!(kind(store.refresh("garbage", NOW)), ErrorKind::InvalidToken);
}

#[test]
fn refresh_with_expired_token_is_expired() {
    let mut store = alice_store();
    let t = store.login("alice", "pw", "dev1", NOW).unwrap();
    assert_eq!(kind(store.refresh(&t.refresh_token, NOW + 7776000)), ErrorKind::ExpiredToken);
}

#[test]
fn refresh_after_logout_is_invalid() {
    let mut store = alice_store();
    let t = store.login("alice", "pw", "dev1", NOW).unwrap();
    store.logout(&t.session).unwrap();
    assert_eq!(kind(store.refresh(&t.refresh_token, NOW + 1)), ErrorKind::InvalidToken);
}

#[test]
fn gate_refuses_after_logout() {
    let mut store = alice_store();
    let t = store.login("alice", "pw", "dev1", NOW).unwrap();
    let header = bearer(&t.access_token);
    let claims = store.gate(Some(&header), PROTECTED, NOW + 1).unwrap().unwrap();
    store.logout(&claims).unwrap();
    assert!(!store.records.key_exists(&RedisKey::SessionRefresh(t.refresh_session.jti.clone())));
    assert_eq!(kind(store.gate(Some(&header), PROTECTED, NOW + 2)), ErrorKind::InvalidToken);
}

#[test]
fn expired_token_is_expired_whatever_the_store_holds() {
    let mut store = alice_store();
    let t = store.login("alice", "pw", "dev1", NOW).unwrap();
    let header = bearer(&t.access_token);
    assert_eq!(kind(store.gate(Some(&header), PROTECTED, NOW + 21600)), ErrorKind::ExpiredToken);
    store.logout(&t.session).unwrap();
    assert_eq!(kind(store.gate(Some(&header), PROTECTED, NOW + 21600)), ErrorKind::ExpiredToken);
}

#[test]
fn allow_listed_paths_bypass_the_gate() {
    let store = Store::new();
    assert!(store.gate(None, "/api/v1/auth/login", NOW).unwrap().is_none());
    assert!(store.gate(Some("garbage"), "/api/v1/auth/register", NOW).unwrap().is_none());
    assert!(store.gate(Some("Bearer "), "/api/v1/auth/refresh", NOW).unwrap().is_none());
    assert!(!AuthenticationMiddleware::new().check_required_auth("/api/v1/auth/login"));
    assert!(AuthenticationMiddleware::new().check_required_auth("/api/v1/auth/logout"));
}

#[test]
fn gate_requires_a_bearer_token() {
    let store = Store::new();
    assert_eq!(kind(store.gate(None, PROTECTED, NOW)), ErrorKind::MissingToken);
    assert_eq!(kind(store.gate(Some(""), PROTECTED, NOW)), ErrorKind::MissingToken);
    assert_eq!(kind(store.gate(Some("Basic abc"), PROTECTED, NOW)), ErrorKind::MissingToken);
    assert_eq!(kind(store.gate(Some("Bearer "), PROTECTED, NOW)), ErrorKind::MissingToken);
    assert_eq!(kind(store.gate(Some("Bearer abc"), PROTECTED, NOW)), ErrorKind::InvalidToken);
}

#[test]
fn gate_refuses_a_refresh_token() {
    let mut store = alice_store();
    let t = store.login("alice", "pw", "dev1", NOW).unwrap();
    assert_eq!(kind(store.gate(Some(&bearer(&t.refresh_token)), PROTECTED, NOW)), ErrorKind::InvalidToken);
}

#[test]
fn login_refresh_then_gate_scenario() {
    let mut store = alice_store();
    let first = store.login("alice", "pw", "dev1", NOW).unwrap();
    let second = store.refresh(&first.refresh_token, NOW + 60).unwrap();
    assert_eq!(kind(store.gate(Some(&bearer(&first.access_token)), PROTECTED, NOW + 61)), ErrorKind::InvalidToken);
    let claims = store.gate(Some(&bearer(&second.access_token)), PROTECTED, NOW + 61).unwrap().unwrap();
    assert_eq!(claims.username, "alice");
    assert_eq!(claims.device_id, "dev1");
    assert_eq!(kind(store.refresh(&first.refresh_token, NOW + 62)), ErrorKind::InvalidToken);
}

#[test]
fn logout_twice_is_invalid_the_second_time() {
    let mut store = alice_store();
    let t = store.login("alice", "pw", "dev1", NOW).unwrap();
    assert!(store.logout(&t.session).is_ok());
    assert_eq!(kind(store.logout(&t.session)), ErrorKind::InvalidToken);
}

#[test]
fn logout_with_corrupt_record_is_internal() {
    let mut store = alice_store();
    let t = store.login("alice", "pw", "dev1", NOW).unwrap();
    store.records.set(&logout_lookup_key(&t.session), "corrupt");
    assert_eq!(kind(store.logout(&t.session)), ErrorKind::InternalServerError);
}

#[test]
fn refresh_with_broken_link_is_invalid() {
    let mut store = alice_store();
    let t = store.login("alice", "pw", "dev1", NOW).unwrap();
    store.records.delete(&logout_lookup_key(&t.session));
    assert_eq!(kind(store.refresh(&t.refresh_token, NOW + 1)), ErrorKind::InvalidToken);
}

#[test]
fn store_set_get_delete() {
    let mut c = RedisClient::new();
    let k = RedisKey::Other("k".to_string());
    assert_eq!(c.get(&k).unwrap_err().kind(), ErrorKind::NotFound);
    c.set(&k, "v1");
    assert_eq!(c.get(&k).unwrap(), "v1");
    c.set(&k, "v2");
    assert_eq!(c.get(&k).unwrap(), "v2");
    assert!(c.key_exists(&k));
    c.delete(&k);
    assert!(!c.key_exists(&k));
    c.delete(&k);
    assert!(!c.key_exists(&k));
}

#[test]
fn store_expire_needs_a_record() {
    let mut c = RedisClient::new();
    let k = RedisKey::Account("a".to_string());
    assert!(!c.expire(&k, 30));
    c.set(&k, "v");
    assert!(c.expire(&k, 30));
    assert_eq!(c.get(&k).unwrap(), "v");
}

#[test]
fn store_executes_writes_in_order() {
    let mut c = RedisClient::new();
    let commands = vec![
        StoreCommand::Put("doc_storage:x".to_string(), "1".to_string()),
        StoreCommand::Delete("doc_storage:x".to_string()),
        StoreCommand::Put("doc_storage:y".to_string(), "2".to_string()),
    ];
    c.execute_raw(&commands);
    assert!(!c.key_exists(&RedisKey::Other("x".to_string())));
    assert_eq!(c.get(&RedisKey::Other("y".to_string())).unwrap(), "2");
    c.execute(&StoreCommand::Put("doc_storage:x".to_string(), "3".to_string()));
    assert_eq!(c.get(&RedisKey::Other("x".to_string())).unwrap(), "3");
}

#[test]
fn registration_stores_a_verifiable_hash() {
    let payload = RegistrationPayload {
        username: "dave".to_string(),
        password: "secret".to_string(),
        device_id: "phone".to_string(),
    };
    let user = register_user(payload, false).unwrap();
    assert_eq!(user.username, "dave");
    assert_ne!(user.password, "secret");
    assert_eq!(user.device_id, vec!["phone".to_string()]);
    assert_eq!(user.registration_response().username, "dave");
    let mut store = Store::new();
    store.accounts.insert("dave".to_string(), user.password.clone());
    assert!(store.login("dave", "secret", "phone", NOW).is_ok());
    assert_eq!(kind(store.login("dave", "other", "phone", NOW)), ErrorKind::BadRequest);
}

#[test]
fn registration_of_existing_account_conflicts() {
    let payload = RegistrationPayload {
        username: "dave".to_string(),
        password: "secret".to_string(),
        device_id: "phone".to_string(),
    };
    assert_eq!(kind(register_user(payload, true)), ErrorKind::Conflict);
}

#[test]
fn responses_carry_the_tokens() {
    let t = create_tokens("alice".to_string(), "dev1".to_string(), NOW, "a1".to_string(), "r1".to_string(), &keys()).unwrap();
    let login = t.login_response();
    assert_eq!(login.access_token, t.access_token);
    assert_eq!(login.refresh_token, t.refresh_token);
    let refresh = t.refresh_response();
    assert_eq!(refresh.access_token, t.access_token);
}

#[test]
fn fresh_jtis_are_uuids() {
    let a = new_jti();
    let b = new_jti();
    assert_eq!(a.len(), 36);
    assert!(!a.contains(':'));
    assert_ne!(a, b);
    assert!(current_time().unwrap() > NOW);
}

#[test]
fn json_parse_rejects_leading_zeros() {
    let text = "{\"username\":\"a\",\"device_id\":\"b\",\"exp\":007,\"iat\":1,\"iss\":\"i\",\"jti\":\"j\"}";
    assert!(SessionClaims::from_json(text).is_none());
    let canonical = "{\"username\":\"a\",\"device_id\":\"b\",\"exp\":7,\"iat\":0,\"iss\":\"i\",\"jti\":\"j\"}";
    let c = SessionClaims::from_json(canonical).unwrap();
    assert_eq!(c.exp, 7);
    assert_eq!(c.iat, 0);
    assert_eq!(c.to_json(), canonical);
}

#[test]
fn expired_token_with_odd_jti_is_still_expired() {
    let claims = SessionClaims::issue("alice".to_string(), "dev1".to_string(), NOW, "a:b".to_string()).unwrap();
    let token = sign_access(&claims, &keys()).unwrap();
    assert_eq!(decode_access_token(&token, NOW + 21600, &keys()).unwrap_err(), TokenError::Expired);
    assert_eq!(decode_access_token(&token, NOW, &keys()).unwrap_err(), TokenError::Malformed);
}
