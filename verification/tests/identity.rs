//! Certifying a workload's credential against its trust roots, with real
//! certificates and keys.

use meshtls::config::{
    empty_config, ClientAuth, ClientConfig, Key, ServerConfig, Signer, SigningFailed, SigningKey,
    SIGNATURE_ALGORITHM, SIGNATURE_SCHEME, TLS_1_2, TLS_1_3,
};
use meshtls::creds::{
    classify_fault, Crt, CrtKey, Csr, GeneralError, InvalidCrt, TokenError, TokenSource,
    TrustAnchors, FAULT_CERT_EXPIRED, FAULT_CERT_NOT_VALID_YET, FAULT_UNKNOWN_ISSUER,
};
use meshtls::name::{LocalId, Name};
use std::time::{Duration, SystemTime, UNIX_EPOCH};

const CA1_PEM: &str = "-----BEGIN CERTIFICATE-----\n\
MIIBeTCCAR+gAwIBAgIUUCMeomkjZ1Bdk9carD5Y4zKZpz8wCgYIKoZIzj0EAwIw\n\
KTEnMCUGA1UEAwweaWRlbnRpdHkubGlua2VyZC5jbHVzdGVyLmxvY2FsMCAXDTIw\n\
MDEwMTAwMDAwMFoYDzIxMTkxMjMxMDAwMDAwWjApMScwJQYDVQQDDB5pZGVudGl0\n\
eS5saW5rZXJkLmNsdXN0ZXIubG9jYWwwWTATBgcqhkjOPQIBBggqhkjOPQMBBwNC\n\
AATX5odoPcxCzsUZGbhmyPcSOe9zFL1Z4MOoqne0CI92OejEgTYfDJz28JGhdLKb\n\
V4HGXMjLFKeLx5jCZXkA4bFroyMwITAPBgNVHRMBAf8EBTADAQH/MA4GA1UdDwEB\n\
/wQEAwIBBjAKBggqhkjOPQQDAgNIADBFAiEA9CYDXQGnbQPEGXAKVxJZoVImUGU6\n\
TosQ2nK4BYLMovcCIFYWcvkGvbUvlcoXPnFzfByKuggMs9pph+qa4+omal8X\n\
-----END CERTIFICATE-----\n";

const CA2_PEM: &str = "-----BEGIN CERTIFICATE-----\n\
MIIBeDCCAR+gAwIBAgIUfaAcHSDeu8nNJ8bmlrC114CKJdkwCgYIKoZIzj0EAwIw\n\
KTEnMCUGA1UEAwweaWRlbnRpdHkubGlua2VyZC5jbHVzdGVyLmxvY2FsMCAXDTIw\n\
MDEwMTAwMDAwMFoYDzIxMTkxMjMxMDAwMDAwWjApMScwJQYDVQQDDB5pZGVudGl0\n\
eS5saW5rZXJkLmNsdXN0ZXIubG9jYWwwWTATBgcqhkjOPQIBBggqhkjOPQMBBwNC\n\
AARlcuwrYrmta+3YqMujV0vfJ675JawkyEkXh65Qf/o10B5w7rBwZiKXj+hUUZK8\n\
5AQSLuaGi5iaf9esZyN4xZhgoyMwITAPBgNVHRMBAf8EBTADAQH/MA4GA1UdDwEB\n\
/wQEAwIBBjAKBggqhkjOPQQDAgNHADBEAiA+ItCVk5NxVJg0LtsjYVxbpmHLMefr\n\
fWIe5eXdbYpmoAIgV92SlXWAKJ8CwzF88ndjqslGFk+TzTFSdO42c3XTAv8=\n\
-----END CERTIFICATE-----\n";

const FOO_NS1_CRT: &[u8] = &[
    0x30, 0x82, 0x01, 0xf0, 0x30, 0x82, 0x01, 0x95, 0xa0, 0x03, 0x02, 0x01, 0x02, 0x02, 0x14, 0x16,
    0x53, 0x77, 0x08, 0x82, 0x86, 0x24, 0xd4, 0x09, 0x56, 0xeb, 0x31, 0x99, 0xaa, 0x25, 0xe6, 0x4c,
    0x86, 0x15, 0xf1, 0x30, 0x0a, 0x06, 0x08, 0x2a, 0x86, 0x48, 0xce, 0x3d, 0x04, 0x03, 0x02, 0x30,
    0x29, 0x31, 0x27, 0x30, 0x25, 0x06, 0x03, 0x55, 0x04, 0x03, 0x0c, 0x1e, 0x69, 0x64, 0x65, 0x6e,
    0x74, 0x69, 0x74, 0x79, 0x2e, 0x6c, 0x69, 0x6e, 0x6b, 0x65, 0x72, 0x64, 0x2e, 0x63, 0x6c, 0x75,
    0x73, 0x74, 0x65, 0x72, 0x2e, 0x6c, 0x6f, 0x63, 0x61, 0x6c, 0x30, 0x20, 0x17, 0x0d, 0x32, 0x30,
    0x30, 0x31, 0x30, 0x31, 0x30, 0x30, 0x30, 0x30, 0x30, 0x30, 0x5a, 0x18, 0x0f, 0x32, 0x31, 0x31,
    0x39, 0x31, 0x32, 0x33, 0x31, 0x30, 0x30, 0x30, 0x30, 0x30, 0x30, 0x5a, 0x30, 0x40, 0x31, 0x3e,
    0x30, 0x3c, 0x06, 0x03, 0x55, 0x04, 0x03, 0x0c, 0x35, 0x66, 0x6f, 0x6f, 0x2e, 0x6e, 0x73, 0x31,
    0x2e, 0x73, 0x65, 0x72, 0x76, 0x69, 0x63, 0x65, 0x61, 0x63, 0x63, 0x6f, 0x75, 0x6e, 0x74, 0x2e,
    0x69, 0x64, 0x65, 0x6e, 0x74, 0x69, 0x74, 0x79, 0x2e, 0x6c, 0x69, 0x6e, 0x6b, 0x65, 0x72, 0x64,
    0x2e, 0x63, 0x6c, 0x75, 0x73, 0x74, 0x65, 0x72, 0x2e, 0x6c, 0x6f, 0x63, 0x61, 0x6c, 0x30, 0x59,
    0x30, 0x13, 0x06, 0x07, 0x2a, 0x86, 0x48, 0xce, 0x3d, 0x02, 0x01, 0x06, 0x08, 0x2a, 0x86, 0x48,
    0xce, 0x3d, 0x03, 0x01, 0x07, 0x03, 0x42, 0x00, 0x04, 0x68, 0x9f, 0x52, 0xe2, 0x8b, 0xb7, 0xdf,
    0xcf, 0x95, 0x4c, 0x2d, 0xe4, 0x2b, 0xaf, 0xb7, 0x0d, 0xe0, 0xb8, 0xab, 0x26, 0x90, 0x48, 0xac,
    0xc5, 0x23, 0xfb, 0x82, 0xea, 0xae, 0x95, 0x12, 0x29, 0x58, 0x20, 0xf1, 0x68, 0x0a, 0xbd, 0xa5,
    0xe4, 0x07, 0x60, 0xb2, 0xf8, 0x0b, 0x41, 0x5e, 0x15, 0xd8, 0xb9, 0x89, 0x54, 0x79, 0xa6, 0x0b,
    0x29, 0xab, 0xd0, 0xbe, 0xaf, 0xe8, 0xee, 0x7c, 0x5a, 0xa3, 0x81, 0x81, 0x30, 0x7f, 0x30, 0x0c,
    0x06, 0x03, 0x55, 0x1d, 0x13, 0x01, 0x01, 0xff, 0x04, 0x02, 0x30, 0x00, 0x30, 0x0e, 0x06, 0x03,
    0x55, 0x1d, 0x0f, 0x01, 0x01, 0xff, 0x04, 0x04, 0x03, 0x02, 0x05, 0xa0, 0x30, 0x1d, 0x06, 0x03,
    0x55, 0x1d, 0x25, 0x04, 0x16, 0x30, 0x14, 0x06, 0x08, 0x2b, 0x06, 0x01, 0x05, 0x05, 0x07, 0x03,
    0x01, 0x06, 0x08, 0x2b, 0x06, 0x01, 0x05, 0x05, 0x07, 0x03, 0x02, 0x30, 0x40, 0x06, 0x03, 0x55,
    0x1d, 0x11, 0x04, 0x39, 0x30, 0x37, 0x82, 0x35, 0x66, 0x6f, 0x6f, 0x2e, 0x6e, 0x73, 0x31, 0x2e,
    0x73, 0x65, 0x72, 0x76, 0x69, 0x63, 0x65, 0x61, 0x63, 0x63, 0x6f, 0x75, 0x6e, 0x74, 0x2e, 0x69,
    0x64, 0x65, 0x6e, 0x74, 0x69, 0x74, 0x79, 0x2e, 0x6c, 0x69, 0x6e, 0x6b, 0x65, 0x72, 0x64, 0x2e,
    0x63, 0x6c, 0x75, 0x73, 0x74, 0x65, 0x72, 0x2e, 0x6c, 0x6f, 0x63, 0x61, 0x6c, 0x30, 0x0a, 0x06,
    0x08, 0x2a, 0x86, 0x48, 0xce, 0x3d, 0x04, 0x03, 0x02, 0x03, 0x49, 0x00, 0x30, 0x46, 0x02, 0x21,
    0x00, 0xcd, 0xdb, 0x29, 0x40, 0x09, 0x00, 0x6b, 0xd2, 0x02, 0xec, 0x4c, 0x49, 0x50, 0xb1, 0xbb,
    0xd2, 0x68, 0x66, 0x6a, 0x20, 0x96, 0x1e, 0xe6, 0xde, 0xc8, 0x79, 0x2f, 0x31, 0x3b, 0x5f, 0x06,
    0x2e, 0x02, 0x21, 0x00, 0x8a, 0x56, 0x71, 0xa7, 0x56, 0xb7, 0x56, 0x00, 0x7a, 0xe5, 0x55, 0x97,
    0x33, 0x13, 0x38, 0xa1, 0x80, 0x77, 0xb6, 0x5c, 0x05, 0xff, 0x5e, 0xe0, 0x8e, 0xd0, 0xfe, 0x7a,
    0xc3, 0xdc, 0xfe, 0xde,
];

const FOO_NS1_KEY: &[u8] = &[
    0x30, 0x81, 0x87, 0x02, 0x01, 0x00, 0x30, 0x13, 0x06, 0x07, 0x2a, 0x86, 0x48, 0xce, 0x3d, 0x02,
    0x01, 0x06, 0x08, 0x2a, 0x86, 0x48, 0xce, 0x3d, 0x03, 0x01, 0x07, 0x04, 0x6d, 0x30, 0x6b, 0x02,
    0x01, 0x01, 0x04, 0x20, 0x31, 0xf3, 0xfc, 0x64, 0x2b, 0xa1, 0x52, 0x37, 0xad, 0xbc, 0x20, 0x40,
    0xf4, 0xe6, 0x35, 0xdb, 0x01, 0x7e, 0x56, 0x3d, 0xd5, 0x97, 0xb1, 0x3c, 0x72, 0xe8, 0x00, 0x25,
    0x24, 0x4c, 0x78, 0x58, 0xa1, 0x44, 0x03, 0x42, 0x00, 0x04, 0x68, 0x9f, 0x52, 0xe2, 0x8b, 0xb7,
    0xdf, 0xcf, 0x95, 0x4c, 0x2d, 0xe4, 0x2b, 0xaf, 0xb7, 0x0d, 0xe0, 0xb8, 0xab, 0x26, 0x90, 0x48,
    0xac, 0xc5, 0x23, 0xfb, 0x82, 0xea, 0xae, 0x95, 0x12, 0x29, 0x58, 0x20, 0xf1, 0x68, 0x0a, 0xbd,
    0xa5, 0xe4, 0x07, 0x60, 0xb2, 0xf8, 0x0b, 0x41, 0x5e, 0x15, 0xd8, 0xb9, 0x89, 0x54, 0x79, 0xa6,
    0x0b, 0x29, 0xab, 0xd0, 0xbe, 0xaf, 0xe8, 0xee, 0x7c, 0x5a,
];

const BAR_NS1_CRT: &[u8] = &[
    0x30, 0x82, 0x01, 0xef, 0x30, 0x82, 0x01, 0x95, 0xa0, 0x03, 0x02, 0x01, 0x02, 0x02, 0x14, 0x40,
    0x89, 0x23, 0xa0, 0x40, 0xc0, 0xd7, 0x74, 0x61, 0x71, 0xe4, 0x21, 0xfa, 0x5d, 0xbf, 0x04, 0x83,
    0x96, 0xd3, 0x9e, 0x30, 0x0a, 0x06, 0x08, 0x2a, 0x86, 0x48, 0xce, 0x3d, 0x04, 0x03, 0x02, 0x30,
    0x29, 0x31, 0x27, 0x30, 0x25, 0x06, 0x03, 0x55, 0x04, 0x03, 0x0c, 0x1e, 0x69, 0x64, 0x65, 0x6e,
    0x74, 0x69, 0x74, 0x79, 0x2e, 0x6c, 0x69, 0x6e, 0x6b, 0x65, 0x72, 0x64, 0x2e, 0x63, 0x6c, 0x75,
    0x73, 0x74, 0x65, 0x72, 0x2e, 0x6c, 0x6f, 0x63, 0x61, 0x6c, 0x30, 0x20, 0x17, 0x0d, 0x32, 0x30,
    0x30, 0x31, 0x30, 0x31, 0x30, 0x30, 0x30, 0x30, 0x30, 0x30, 0x5a, 0x18, 0x0f, 0x32, 0x31, 0x31,
    0x39, 0x31, 0x32, 0x33, 0x31, 0x30, 0x30, 0x30, 0x30, 0x30, 0x30, 0x5a, 0x30, 0x40, 0x31, 0x3e,
    0x30, 0x3c, 0x06, 0x03, 0x55, 0x04, 0x03, 0x0c, 0x35, 0x62, 0x61, 0x72, 0x2e, 0x6e, 0x73, 0x31,
    0x2e, 0x73, 0x65, 0x72, 0x76, 0x69, 0x63, 0x65, 0x61, 0x63, 0x63, 0x6f, 0x75, 0x6e, 0x74, 0x2e,
    0x69, 0x64, 0x65, 0x6e, 0x74, 0x69, 0x74, 0x79, 0x2e, 0x6c, 0x69, 0x6e, 0x6b, 0x65, 0x72, 0x64,
    0x2e, 0x63, 0x6c, 0x75, 0x73, 0x74, 0x65, 0x72, 0x2e, 0x6c, 0x6f, 0x63, 0x61, 0x6c, 0x30, 0x59,
    0x30, 0x13, 0x06, 0x07, 0x2a, 0x86, 0x48, 0xce, 0x3d, 0x02, 0x01, 0x06, 0x08, 0x2a, 0x86, 0x48,
    0xce, 0x3d, 0x03, 0x01, 0x07, 0x03, 0x42, 0x00, 0x04, 0xf4, 0x17, 0xf2, 0x80, 0x6c, 0x8a, 0x3d,
    0x48, 0x98, 0x6e, 0x25, 0xa9, 0x60, 0x0a, 0x97, 0x4f, 0xfa, 0x52, 0x39, 0xef, 0x4a, 0x7c, 0xa8,
    0x74, 0x1d, 0x7a, 0xee, 0x67, 0x11, 0x47, 0x5a, 0xaf, 0x1c, 0x29, 0xbd, 0xb6, 0xca, 0xc8, 0x16,
    0x29, 0x65, 0x2d, 0xbf, 0x3b, 0x2a, 0x6e, 0xee, 0xde, 0xd5, 0xf7, 0x2d, 0xf4, 0xb5, 0x1f, 0xaa,
    0x71, 0x50, 0xf4, 0xa9, 0x67, 0x1a, 0x8a, 0xa2, 0xe1, 0xa3, 0x81, 0x81, 0x30, 0x7f, 0x30, 0x0c,
    0x06, 0x03, 0x55, 0x1d, 0x13, 0x01, 0x01, 0xff, 0x04, 0x02, 0x30, 0x00, 0x30, 0x0e, 0x06, 0x03,
    0x55, 0x1d, 0x0f, 0x01, 0x01, 0xff, 0x04, 0x04, 0x03, 0x02, 0x05, 0xa0, 0x30, 0x1d, 0x06, 0x03,
    0x55, 0x1d, 0x25, 0x04, 0x16, 0x30, 0x14, 0x06, 0x08, 0x2b, 0x06, 0x01, 0x05, 0x05, 0x07, 0x03,
    0x01, 0x06, 0x08, 0x2b, 0x06, 0x01, 0x05, 0x05, 0x07, 0x03, 0x02, 0x30, 0x40, 0x06, 0x03, 0x55,
    0x1d, 0x11, 0x04, 0x39, 0x30, 0x37, 0x82, 0x35, 0x62, 0x61, 0x72, 0x2e, 0x6e, 0x73, 0x31, 0x2e,
    0x73, 0x65, 0x72, 0x76, 0x69, 0x63, 0x65, 0x61, 0x63, 0x63, 0x6f, 0x75, 0x6e, 0x74, 0x2e, 0x69,
    0x64, 0x65, 0x6e, 0x74, 0x69, 0x74, 0x79, 0x2e, 0x6c, 0x69, 0x6e, 0x6b, 0x65, 0x72, 0x64, 0x2e,
    0x63, 0x6c, 0x75, 0x73, 0x74, 0x65, 0x72, 0x2e, 0x6c, 0x6f, 0x63, 0x61, 0x6c, 0x30, 0x0a, 0x06,
    0x08, 0x2a, 0x86, 0x48, 0xce, 0x3d, 0x04, 0x03, 0x02, 0x03, 0x48, 0x00, 0x30, 0x45, 0x02, 0x20,
    0x7c, 0xe7, 0x2a, 0x75, 0x5e, 0x05, 0x6a, 0x2f, 0xf8, 0xc2, 0xa9, 0x33, 0x53, 0xf7, 0x55, 0x16,
    0x5d, 0xc9, 0xc5, 0x63, 0x17, 0x79, 0x87, 0x25, 0x06, 0x54, 0x6a, 0x5a, 0xde, 0x54, 0x45, 0xca,
    0x02, 0x21, 0x00, 0xb4, 0x81, 0x7f, 0x2b, 0x43, 0xeb, 0xb1, 0x29, 0xa9, 0x88, 0x94, 0x65, 0x7f,
    0xac, 0x50, 0x00, 0xc8, 0x7d, 0x1b, 0xb1, 0x4b, 0x5a, 0xb0, 0xc6, 0x2c, 0x09, 0x15, 0xad, 0xcd,
    0x78, 0xd3, 0xaa,
];

const BAR_NS1_KEY: &[u8] = &[
    0x30, 0x81, 0x87, 0x02, 0x01, 0x00, 0x30, 0x13, 0x06, 0x07, 0x2a, 0x86, 0x48, 0xce, 0x3d, 0x02,
    0x01, 0x06, 0x08, 0x2a, 0x86, 0x48, 0xce, 0x3d, 0x03, 0x01, 0x07, 0x04, 0x6d, 0x30, 0x6b, 0x02,
    0x01, 0x01, 0x04, 0x20, 0xcb, 0xf6, 0x55, 0x42, 0x70, 0xaa, 0xe8, 0xa3, 0x80, 0x12, 0x4a, 0x62,
    0x81, 0xbd, 0xcb, 0xf8, 0x0d, 0xd7, 0x58, 0x6c, 0x1b, 0xc5, 0x1d, 0x0a, 0x1c, 0xe0, 0x5e, 0xcc,
    0x8a, 0x06, 0x62, 0xf4, 0xa1, 0x44, 0x03, 0x42, 0x00, 0x04, 0xf4, 0x17, 0xf2, 0x80, 0x6c, 0x8a,
    0x3d, 0x48, 0x98, 0x6e, 0x25, 0xa9, 0x60, 0x0a, 0x97, 0x4f, 0xfa, 0x52, 0x39, 0xef, 0x4a, 0x7c,
    0xa8, 0x74, 0x1d, 0x7a, 0xee, 0x67, 0x11, 0x47, 0x5a, 0xaf, 0x1c, 0x29, 0xbd, 0xb6, 0xca, 0xc8,
    0x16, 0x29, 0x65, 0x2d, 0xbf, 0x3b, 0x2a, 0x6e, 0xee, 0xde, 0xd5, 0xf7, 0x2d, 0xf4, 0xb5, 0x1f,
    0xaa, 0x71, 0x50, 0xf4, 0xa9, 0x67, 0x1a, 0x8a, 0xa2, 0xe1,
];

const FOO_NS1_CA2_CRT: &[u8] = &[
    0x30, 0x82, 0x01, 0xef, 0x30, 0x82, 0x01, 0x95, 0xa0, 0x03, 0x02, 0x01, 0x02, 0x02, 0x14, 0x69,
    0x60, 0xfd, 0xe8, 0xf2, 0x1a, 0xe3, 0xfb, 0x86, 0x6e, 0xfb, 0x16, 0xbb, 0x51, 0xd6, 0xd1, 0x9b,
    0xbb, 0x74, 0xbb, 0x30, 0x0a, 0x06, 0x08, 0x2a, 0x86, 0x48, 0xce, 0x3d, 0x04, 0x03, 0x02, 0x30,
    0x29, 0x31, 0x27, 0x30, 0x25, 0x06, 0x03, 0x55, 0x04, 0x03, 0x0c, 0x1e, 0x69, 0x64, 0x65, 0x6e,
    0x74, 0x69, 0x74, 0x79, 0x2e, 0x6c, 0x69, 0x6e, 0x6b, 0x65, 0x72, 0x64, 0x2e, 0x63, 0x6c, 0x75,
    0x73, 0x74, 0x65, 0x72, 0x2e, 0x6c, 0x6f, 0x63, 0x61, 0x6c, 0x30, 0x20, 0x17, 0x0d, 0x32, 0x30,
    0x30, 0x31, 0x30, 0x31, 0x30, 0x30, 0x30, 0x30, 0x30, 0x30, 0x5a, 0x18, 0x0f, 0x32, 0x31, 0x31,
    0x39, 0x31, 0x32, 0x33, 0x31, 0x30, 0x30, 0x30, 0x30, 0x30, 0x30, 0x5a, 0x30, 0x40, 0x31, 0x3e,
    0x30, 0x3c, 0x06, 0x03, 0x55, 0x04, 0x03, 0x0c, 0x35, 0x66, 0x6f, 0x6f, 0x2e, 0x6e, 0x73, 0x31,
    0x2e, 0x73, 0x65, 0x72, 0x76, 0x69, 0x63, 0x65, 0x61, 0x63, 0x63, 0x6f, 0x75, 0x6e, 0x74, 0x2e,
    0x69, 0x64, 0x65, 0x6e, 0x74, 0x69, 0x74, 0x79, 0x2e, 0x6c, 0x69, 0x6e, 0x6b, 0x65, 0x72, 0x64,
    0x2e, 0x63, 0x6c, 0x75, 0x73, 0x74, 0x65, 0x72, 0x2e, 0x6c, 0x6f, 0x63, 0x61, 0x6c, 0x30, 0x59,
    0x30, 0x13, 0x06, 0x07, 0x2a, 0x86, 0x48, 0xce, 0x3d, 0x02, 0x01, 0x06, 0x08, 0x2a, 0x86, 0x48,
    0xce, 0x3d, 0x03, 0x01, 0x07, 0x03, 0x42, 0x00, 0x04, 0x7d, 0xc1, 0x36, 0x5b, 0x84, 0xcf, 0x2a,
    0x67, 0xe8, 0xcd, 0x7b, 0x3f, 0xcd, 0xca, 0x45, 0x60, 0x68, 0x77, 0x22, 0x39, 0xeb, 0x68, 0x80,
    0xed, 0x81, 0x15, 0x48, 0x97, 0xa3, 0x01, 0xc3, 0x6e, 0x20, 0xdb, 0xbf, 0x02, 0x17, 0xfb, 0xdd,
    0xa9, 0x3f, 0x74, 0x95, 0x59, 0xd4, 0x55, 0xe0, 0x5d, 0xf0, 0x84, 0x78, 0x55, 0xb2, 0x70, 0x8c,
    0x9d, 0xea, 0xf2, 0xf5, 0xd1, 0xfc, 0x75, 0x2a, 0xa6, 0xa3, 0x81, 0x81, 0x30, 0x7f, 0x30, 0x0c,
    0x06, 0x03, 0x55, 0x1d, 0x13, 0x01, 0x01, 0xff, 0x04, 0x02, 0x30, 0x00, 0x30, 0x0e, 0x06, 0x03,
    0x55, 0x1d, 0x0f, 0x01, 0x01, 0xff, 0x04, 0x04, 0x03, 0x02, 0x05, 0xa0, 0x30, 0x1d, 0x06, 0x03,
    0x55, 0x1d, 0x25, 0x04, 0x16, 0x30, 0x14, 0x06, 0x08, 0x2b, 0x06, 0x01, 0x05, 0x05, 0x07, 0x03,
    0x01, 0x06, 0x08, 0x2b, 0x06, 0x01, 0x05, 0x05, 0x07, 0x03, 0x02, 0x30, 0x40, 0x06, 0x03, 0x55,
    0x1d, 0x11, 0x04, 0x39, 0x30, 0x37, 0x82, 0x35, 0x66, 0x6f, 0x6f, 0x2e, 0x6e, 0x73, 0x31, 0x2e,
    0x73, 0x65, 0x72, 0x76, 0x69, 0x63, 0x65, 0x61, 0x63, 0x63, 0x6f, 0x75, 0x6e, 0x74, 0x2e, 0x69,
    0x64, 0x65, 0x6e, 0x74, 0x69, 0x74, 0x79, 0x2e, 0x6c, 0x69, 0x6e, 0x6b, 0x65, 0x72, 0x64, 0x2e,
    0x63, 0x6c, 0x75, 0x73, 0x74, 0x65, 0x72, 0x2e, 0x6c, 0x6f, 0x63, 0x61, 0x6c, 0x30, 0x0a, 0x06,
    0x08, 0x2a, 0x86, 0x48, 0xce, 0x3d, 0x04, 0x03, 0x02, 0x03, 0x48, 0x00, 0x30, 0x45, 0x02, 0x21,
    0x00, 0xcf, 0x61, 0x85, 0xf3, 0xc0, 0x44, 0x5c, 0x43, 0x1e, 0xa9, 0x5e, 0x98, 0xa2, 0x9d, 0x3c,
    0x83, 0xf6, 0xce, 0x04, 0x96, 0x28, 0x51, 0x9f, 0xfa, 0x10, 0x02, 0xd3, 0x7d, 0x25, 0x8a, 0x2d,
    0xc7, 0x02, 0x20, 0x48, 0x44, 0x8d, 0x92, 0xf1, 0x35, 0x02, 0x09, 0x2a, 0xfd, 0xa5, 0xd5, 0xb5,
    0xa2, 0xe9, 0xff, 0x33, 0xd1, 0xd7, 0xf7, 0x3f, 0x46, 0x26, 0x9b, 0x91, 0x85, 0x3f, 0x91, 0xdb,
    0x90, 0xa4, 0x19,
];

const FOO_NS1_CA2_KEY: &[u8] = &[
    0x30, 0x81, 0x87, 0x02, 0x01, 0x00, 0x30, 0x13, 0x06, 0x07, 0x2a, 0x86, 0x48, 0xce, 0x3d, 0x02,
    0x01, 0x06, 0x08, 0x2a, 0x86, 0x48, 0xce, 0x3d, 0x03, 0x01, 0x07, 0x04, 0x6d, 0x30, 0x6b, 0x02,
    0x01, 0x01, 0x04, 0x20, 0xfa, 0x17, 0xe4, 0xda, 0xc5, 0x73, 0x0a, 0x9d, 0xc4, 0x38, 0x3f, 0xd1,
    0x7b, 0x7d, 0x6c, 0x2b, 0x47, 0x00, 0xe9, 0x60, 0xac, 0x27, 0x09, 0x33, 0x65, 0xa0, 0x81, 0x28,
    0x23, 0x79, 0x0d, 0x26, 0xa1, 0x44, 0x03, 0x42, 0x00, 0x04, 0x7d, 0xc1, 0x36, 0x5b, 0x84, 0xcf,
    0x2a, 0x67, 0xe8, 0xcd, 0x7b, 0x3f, 0xcd, 0xca, 0x45, 0x60, 0x68, 0x77, 0x22, 0x39, 0xeb, 0x68,
    0x80, 0xed, 0x81, 0x15, 0x48, 0x97, 0xa3, 0x01, 0xc3, 0x6e, 0x20, 0xdb, 0xbf, 0x02, 0x17, 0xfb,
    0xdd, 0xa9, 0x3f, 0x74, 0x95, 0x59, 0xd4, 0x55, 0xe0, 0x5d, 0xf0, 0x84, 0x78, 0x55, 0xb2, 0x70,
    0x8c, 0x9d, 0xea, 0xf2, 0xf5, 0xd1, 0xfc, 0x75, 0x2a, 0xa6,
];

const FOO_NS1_CSR: &[u8] = &[
    0x30, 0x81, 0xfb, 0x30, 0x81, 0xa2, 0x02, 0x01, 0x00, 0x30, 0x40, 0x31, 0x3e, 0x30, 0x3c, 0x06,
    0x03, 0x55, 0x04, 0x03, 0x0c, 0x35, 0x66, 0x6f, 0x6f, 0x2e, 0x6e, 0x73, 0x31, 0x2e, 0x73, 0x65,
    0x72, 0x76, 0x69, 0x63, 0x65, 0x61, 0x63, 0x63, 0x6f, 0x75, 0x6e, 0x74, 0x2e, 0x69, 0x64, 0x65,
    0x6e, 0x74, 0x69, 0x74, 0x79, 0x2e, 0x6c, 0x69, 0x6e, 0x6b, 0x65, 0x72, 0x64, 0x2e, 0x63, 0x6c,
    0x75, 0x73, 0x74, 0x65, 0x72, 0x2e, 0x6c, 0x6f, 0x63, 0x61, 0x6c, 0x30, 0x59, 0x30, 0x13, 0x06,
    0x07, 0x2a, 0x86, 0x48, 0xce, 0x3d, 0x02, 0x01, 0x06, 0x08, 0x2a, 0x86, 0x48, 0xce, 0x3d, 0x03,
    0x01, 0x07, 0x03, 0x42, 0x00, 0x04, 0x68, 0x9f, 0x52, 0xe2, 0x8b, 0xb7, 0xdf, 0xcf, 0x95, 0x4c,
    0x2d, 0xe4, 0x2b, 0xaf, 0xb7, 0x0d, 0xe0, 0xb8, 0xab, 0x26, 0x90, 0x48, 0xac, 0xc5, 0x23, 0xfb,
    0x82, 0xea, 0xae, 0x95, 0x12, 0x29, 0x58, 0x20, 0xf1, 0x68, 0x0a, 0xbd, 0xa5, 0xe4, 0x07, 0x60,
    0xb2, 0xf8, 0x0b, 0x41, 0x5e, 0x15, 0xd8, 0xb9, 0x89, 0x54, 0x79, 0xa6, 0x0b, 0x29, 0xab, 0xd0,
    0xbe, 0xaf, 0xe8, 0xee, 0x7c, 0x5a, 0xa0, 0x00, 0x30, 0x0a, 0x06, 0x08, 0x2a, 0x86, 0x48, 0xce,
    0x3d, 0x04, 0x03, 0x02, 0x03, 0x48, 0x00, 0x30, 0x45, 0x02, 0x21, 0x00, 0xc0, 0xe8, 0xe8, 0x53,
    0x77, 0xb1, 0x5b, 0xaa, 0xb2, 0x3f, 0x47, 0x89, 0xbe, 0x1f, 0xf5, 0x77, 0x99, 0x79, 0x83, 0x7e,
    0x1e, 0xd4, 0xfd, 0xb0, 0x22, 0x90, 0x5c, 0x1c, 0x27, 0x4d, 0x12, 0xde, 0x02, 0x20, 0x60, 0x77,
    0x08, 0x5e, 0xd7, 0x5c, 0xf9, 0xfe, 0xc5, 0xba, 0x06, 0x08, 0x25, 0x25, 0x2f, 0x85, 0xc5, 0xa8,
    0x47, 0xbb, 0x06, 0xe6, 0x2b, 0xac, 0x17, 0x10, 0xce, 0xc3, 0xf8, 0x00, 0x23, 0xea,
];

/// A time inside the validity of every certificate above: 2027-01-15.
const NOW: u64 = 1_800_000_000;

const FOO: &str = "foo.ns1.serviceaccount.identity.linkerd.cluster.local";
const BAR: &str = "bar.ns1.serviceaccount.identity.linkerd.cluster.local";

struct Identity {
    name: &'static str,
    trust_anchors: &'static str,
    crt: &'static [u8],
    key: &'static [u8],
}

const FOO_NS1: Identity =
    Identity { name: FOO, trust_anchors: CA1_PEM, crt: FOO_NS1_CRT, key: FOO_NS1_KEY };

const BAR_NS1: Identity =
    Identity { name: BAR, trust_anchors: CA1_PEM, crt: BAR_NS1_CRT, key: BAR_NS1_KEY };

fn expiry() -> SystemTime {
    UNIX_EPOCH + Duration::from_secs(4_000_000_000)
}

impl Identity {
    fn parts(&self) -> (TrustAnchors, Key, Crt) {
        let anchors = TrustAnchors::from_pem(self.trust_anchors).expect("the roots must load");
        let key = match Key::from_pkcs8(self.key) {
            Ok(key) => key,
            Err(e) => panic!("the key must load: {}", e.message()),
        };
        let id = LocalId(Name::from_str(self.name).expect("the name must be valid"));
        let crt = Crt::new(id, self.crt.to_vec(), vec![], expiry());
        (anchors, key, crt)
    }

    fn validate(&self) -> Result<CrtKey, InvalidCrt> {
        let (anchors, key, crt) = self.parts();
        anchors.certify(key, crt)
    }

    fn validate_at(&self, now: u64) -> Result<CrtKey, InvalidCrt> {
        let (anchors, key, crt) = self.parts();
        anchors.certify_at(key, crt, now)
    }
}

#[test]
fn can_construct_client_and_server_config_from_valid_settings() {
    assert!(FOO_NS1.validate().is_ok(), "foo.ns1 must be valid");
}

#[test]
fn recognize_ca_did_not_issue_cert() {
    let s = Identity { trust_anchors: CA2_PEM, ..FOO_NS1 };
    assert!(s.validate().is_err(), "ca2 should not validate foo.ns1");
}

#[test]
fn recognize_cert_is_not_valid_for_identity() {
    let s = Identity { crt: BAR_NS1.crt, key: BAR_NS1.key, ..FOO_NS1 };
    assert!(s.validate().is_err(), "identity should not be valid");
}

#[test]
fn private_key_of_another_certificate_is_not_noticed() {
    // The key is not held against the certificate: a bundle is made.
    let s = Identity { key: BAR_NS1.key, ..FOO_NS1 };
    assert!(s.validate_at(NOW).is_ok());
}

#[test]
fn certified_bundle_has_the_name_and_expiry_of_the_certificate() {
    let bundle = FOO_NS1.validate_at(NOW).expect("foo.ns1 must be valid");
    assert_eq!(bundle.name().to_string(), FOO);
    assert_eq!(bundle.id().0.to_string(), FOO);
    assert_eq!(bundle.expiry(), expiry());
}

#[test]
fn certified_bundle_presents_the_chain_to_both_sides() {
    let bundle = FOO_NS1.validate_at(NOW).expect("foo.ns1 must be valid");
    let client = bundle.client_config();
    let server = bundle.server_config();
    assert_eq!(client.roots().len(), 1);
    assert_eq!(server.roots().len(), 1);
    assert_eq!(client.roots(), server.roots());
    assert!(client.protocols().is_empty());
    assert!(server.alpn_protocols().is_empty());
    assert_eq!(server.client_auth(), ClientAuth::Requested);
    assert_eq!(server.versions(), &vec![TLS_1_2, TLS_1_3]);
    let for_client = client.identity().as_ref().expect("the client presents a certificate");
    let for_server = server.identity().as_ref().expect("the server presents a certificate");
    assert_eq!(for_client.0.cert, vec![FOO_NS1_CRT.to_vec()]);
    assert_eq!(for_server.0.cert, vec![FOO_NS1_CRT.to_vec()]);
}

#[test]
fn chain_of_another_authority_fails_to_verify() {
    let s = Identity { trust_anchors: CA2_PEM, ..FOO_NS1 };
    match s.validate_at(NOW) {
        Err(InvalidCrt::Verify(fault)) => assert_eq!(fault, FAULT_UNKNOWN_ISSUER),
        other => panic!("expected a failure to verify, got {:?}", other.map(|_| ())),
    }
    let s = Identity { crt: FOO_NS1_CA2_CRT, key: FOO_NS1_CA2_KEY, ..FOO_NS1 };
    match s.validate_at(NOW) {
        Err(InvalidCrt::Verify(fault)) => assert_eq!(fault, FAULT_UNKNOWN_ISSUER),
        other => panic!("expected a failure to verify, got {:?}", other.map(|_| ())),
    }
}

#[test]
fn certificate_for_another_name_is_refused_for_the_name() {
    let s = Identity { crt: BAR_NS1.crt, key: BAR_NS1.key, ..FOO_NS1 };
    match s.validate_at(NOW) {
        Err(InvalidCrt::SubjectAltName(name)) => assert_eq!(name.to_string(), FOO),
        other => panic!("expected a name mismatch, got {:?}", other.map(|_| ())),
    }
}

#[test]
fn wrong_name_is_reported_whatever_the_chain() {
    // Neither trusted nor valid for the name: the name is what is reported.
    let s = Identity { trust_anchors: CA2_PEM, crt: BAR_NS1.crt, key: BAR_NS1.key, ..FOO_NS1 };
    assert!(matches!(s.validate_at(NOW), Err(InvalidCrt::SubjectAltName(_))));
    assert!(matches!(s.validate(), Err(InvalidCrt::SubjectAltName(_))));
    // An unreadable leaf names nobody.
    let (anchors, key, _) = FOO_NS1.parts();
    let id = LocalId(Name::from_str(FOO).unwrap());
    let crt = Crt::new(id, vec![0x30, 0x03, 0x02, 0x01, 0x00], vec![], expiry());
    assert!(matches!(anchors.certify_at(key, crt, NOW), Err(InvalidCrt::SubjectAltName(_))));
}

#[test]
fn certificate_is_refused_outside_its_validity() {
    // 2019-01-01, before the certificates begin.
    match FOO_NS1.validate_at(1_546_300_800) {
        Err(InvalidCrt::Verify(fault)) => assert_eq!(fault, FAULT_CERT_NOT_VALID_YET),
        other => panic!("expected a failure to verify, got {:?}", other.map(|_| ())),
    }
    // 2150-01-01, after they have ended.
    match FOO_NS1.validate_at(5_680_281_600) {
        Err(InvalidCrt::Verify(fault)) => assert_eq!(fault, FAULT_CERT_EXPIRED),
        other => panic!("expected a failure to verify, got {:?}", other.map(|_| ())),
    }
}

#[test]
fn unreadable_intermediate_is_a_general_failure_or_passed_over() {
    let (anchors, key, _) = FOO_NS1.parts();
    let id = LocalId(Name::from_str(FOO).unwrap());
    let crt = Crt::new(id, FOO_NS1_CRT.to_vec(), vec![vec![1, 2, 3]], expiry());
    // The leaf is issued by the root itself: webpki never needs the intermediate.
    assert!(anchors.certify_at(key, crt, NOW).is_ok());
}

#[test]
fn certifying_twice_gives_equal_bundles() {
    let first = FOO_NS1.validate_at(NOW).expect("foo.ns1 must be valid");
    let second = FOO_NS1.validate_at(NOW + 86_400).expect("foo.ns1 must be valid");
    assert_eq!(first.name(), second.name());
    assert_eq!(first.expiry(), second.expiry());
    assert_eq!(first.client_config().roots(), second.client_config().roots());
    assert_eq!(first.server_config().versions(), second.server_config().versions());
}

#[test]
fn faults_are_told_apart() {
    assert!(matches!(classify_fault(0), InvalidCrt::General(GeneralError::Malformed(0))));
    assert!(matches!(classify_fault(1), InvalidCrt::General(GeneralError::Malformed(1))));
    assert!(matches!(classify_fault(7), InvalidCrt::General(GeneralError::Malformed(7))));
    assert!(matches!(classify_fault(15), InvalidCrt::General(GeneralError::Unsupported(15))));
    assert!(matches!(classify_fault(18), InvalidCrt::General(GeneralError::Unsupported(18))));
    assert!(matches!(classify_fault(3), InvalidCrt::Verify(3)));
    assert!(matches!(classify_fault(14), InvalidCrt::Verify(14)));
    assert!(matches!(classify_fault(19), InvalidCrt::Verify(19)));
}

#[test]
fn trust_anchors_need_one_usable_certificate() {
    assert!(TrustAnchors::from_pem("").is_none());
    assert!(TrustAnchors::from_pem("no certificate here\n").is_none());
    let both = format!("{}{}", CA1_PEM, CA2_PEM);
    let anchors = TrustAnchors::from_pem(&both).expect("two roots");
    assert_eq!(anchors.client_config().roots().len(), 2);
    // A certificate that does not parse is passed over.
    let junk = "-----BEGIN CERTIFICATE-----\nAAAA\n-----END CERTIFICATE-----\n";
    assert!(TrustAnchors::from_pem(junk).is_none());
    let mixed = format!("{}{}", junk, CA1_PEM);
    let anchors = TrustAnchors::from_pem(&mixed).expect("one root");
    assert_eq!(anchors.client_config().roots().len(), 1);
    // Base64 that does not decode spoils its own block and no other.
    let spoilt = "-----BEGIN CERTIFICATE-----\n!!!\n-----END CERTIFICATE-----\n";
    assert!(TrustAnchors::from_pem(spoilt).is_none());
    let broken = format!("{}{}", spoilt, CA1_PEM);
    let anchors = TrustAnchors::from_pem(&broken).expect("one root");
    assert_eq!(anchors.client_config().roots().len(), 1);
}

fn roots_of(text: &str) -> Vec<Vec<u8>> {
    match TrustAnchors::from_pem(text) {
        Some(anchors) => anchors.client_config().roots().clone(),
        None => Vec::new(),
    }
}

#[test]
fn trust_anchors_come_block_by_block_in_their_order() {
    let first = roots_of(CA1_PEM);
    let second = roots_of(CA2_PEM);
    assert_eq!(first.len(), 1);
    assert_eq!(second.len(), 1);
    assert_ne!(first, second);
    let spoilt = "-----BEGIN CERTIFICATE-----\n!!!\n-----END CERTIFICATE-----\n";
    let junk = "-----BEGIN CERTIFICATE-----\nAAAA\n-----END CERTIFICATE-----\n";
    let text = format!("# roots\n{}{}\nbetween\n{}{}{}", CA2_PEM, spoilt, junk, CA1_PEM, spoilt);
    assert_eq!(roots_of(&text), vec![second[0].clone(), first[0].clone()]);
    // A block that is never ended gives nothing, and takes nothing from the
    // block before it.
    let open = format!("{}-----BEGIN CERTIFICATE-----\nAAAA\n", CA1_PEM);
    assert_eq!(roots_of(&open), first);
    // The last line may lack its line feed, and lines may end in CR LF.
    assert_eq!(roots_of(CA1_PEM.trim_end()), first);
    assert_eq!(roots_of(&CA1_PEM.replace('\n', "\r\n")), first);
    // A line that only holds the mark further in starts no block.
    assert!(roots_of(&CA1_PEM.replacen("-----BEGIN", " -----BEGIN", 1)).is_empty());
}

#[test]
fn a_broken_root_does_not_keep_a_good_one_from_certifying() {
    let spoilt = "-----BEGIN CERTIFICATE-----\n!!!\n-----END CERTIFICATE-----\n";
    let text = format!("{}{}", spoilt, CA1_PEM);
    let anchors = TrustAnchors::from_pem(&text).expect("one root");
    let (_, key, crt) = FOO_NS1.parts();
    assert!(anchors.certify_at(key, crt, NOW).is_ok());
}

#[test]
fn loaded_roots_resume_no_session() {
    let anchors = TrustAnchors::from_pem(CA1_PEM).expect("one root");
    let config = anchors.client_config();
    assert!(!config.enable_tickets());
    assert!(config.identity().is_none());
    assert_eq!(config.roots().len(), 1);
    // Asked again, the same comes back.
    let again = anchors.client_config();
    assert_eq!(again.roots(), config.roots());
    assert_eq!(again.enable_tickets(), config.enable_tickets());
    assert!(!anchors.clone().client_config().enable_tickets());
    // Nor does a certified credential.
    let bundle = FOO_NS1.validate_at(NOW).expect("foo.ns1 must be valid");
    assert!(!bundle.client_config().enable_tickets());
    assert!(!bundle.clone().client_config().enable_tickets());
    // Where nothing was loaded, nothing was switched off.
    assert!(TrustAnchors::empty().client_config().enable_tickets());
    assert!(ClientConfig::empty().enable_tickets());
    assert!(ClientConfig::new(vec![b"h2".to_vec()]).clone().enable_tickets());
}

#[test]
fn copies_hold_the_same() {
    let (anchors, key, crt) = FOO_NS1.parts();
    let again = anchors.clone();
    assert_eq!(again.client_config().roots(), anchors.client_config().roots());
    let crt_again = crt.clone();
    assert_eq!(crt_again.name(), crt.name());
    let key_again = key.clone();
    assert_eq!(key_again.public_key(), key.public_key());
    let bundle = anchors.certify_at(key, crt, NOW).expect("foo.ns1 must be valid");
    let copy = bundle.clone();
    assert_eq!(copy.name(), bundle.name());
    assert_eq!(copy.expiry(), bundle.expiry());
    assert_eq!(copy.client_config().roots(), bundle.client_config().roots());
    assert_eq!(copy.server_config().versions(), bundle.server_config().versions());
    assert_eq!(
        copy.server_config().identity().as_ref().expect("a certificate").0.cert,
        vec![FOO_NS1_CRT.to_vec()]
    );
    assert!(again.certify_at(key_again, crt_again, NOW).is_ok());
    let csr = Csr::from_der(vec![1, 2, 3]).expect("a request");
    assert_eq!(csr.clone().to_vec(), vec![1, 2, 3]);
    let source = TokenSource::if_nonempty_file("/run/token".to_string(), b"t").expect("a token");
    assert_eq!(source.clone().as_path(), "/run/token");
    let mut client = ClientConfig::new(vec![b"h2".to_vec()]);
    let before = client.clone();
    client.set_protocols(vec![]);
    assert_eq!(before.protocols(), &vec![b"h2".to_vec()]);
    let mut server = ServerConfig::new(vec![]);
    let bare = server.clone();
    server.add_protocols(b"h2".to_vec());
    assert!(bare.alpn_protocols().is_empty());
    assert_eq!(server.clone().alpn_protocols(), &vec![b"h2".to_vec()]);
    let refused = InvalidCrt::Verify(FAULT_UNKNOWN_ISSUER);
    assert!(matches!(refused.clone(), InvalidCrt::Verify(FAULT_UNKNOWN_ISSUER)));
}

#[test]
fn empty_trust_anchors_certify_nothing() {
    let (_, key, crt) = FOO_NS1.parts();
    let anchors = TrustAnchors::empty();
    assert!(anchors.client_config().roots().is_empty());
    assert!(anchors.client_config().identity().is_none());
    match anchors.certify_at(key, crt, NOW) {
        Err(InvalidCrt::Verify(fault)) => assert_eq!(fault, FAULT_UNKNOWN_ISSUER),
        other => panic!("expected a failure to verify, got {:?}", other.map(|_| ())),
    }
}

#[test]
fn key_must_be_a_pkcs8_p256_key() {
    assert!(Key::from_pkcs8(FOO_NS1_KEY).is_ok());
    assert!(Key::from_pkcs8(&[]).is_err());
    match Key::from_pkcs8(FOO_NS1_CRT) {
        Err(e) => assert!(!e.message().is_empty()),
        Ok(_) => panic!("a certificate is no key"),
    }
}

#[test]
fn signing_key_signs_only_with_its_scheme() {
    let key = Key::from_pkcs8(FOO_NS1_KEY).ok().expect("the key must load");
    let signing = SigningKey::new(key);
    assert_eq!(signing.algorithm(), SIGNATURE_ALGORITHM);
    assert!(signing.choose_scheme(&[]).is_none());
    assert!(signing.choose_scheme(&[0x0804, 0x0401]).is_none());
    let signer = signing.choose_scheme(&[0x0804, SIGNATURE_SCHEME]).expect("the scheme is offered");
    assert_eq!(signer.get_scheme(), 0x0403);
    let one = signer.sign(b"hello").expect("signing works");
    let two = signer.sign(b"hello").expect("signing works");
    assert!(!one.is_empty());
    // ASN.1 signatures of P-256 are sequences of at most 72 bytes.
    assert_eq!(one[0], 0x30);
    assert!(one.len() <= 72 && two.len() <= 72);
    assert_ne!(one, two);
}

#[test]
fn resolver_presents_the_certificate_for_its_name_only() {
    let bundle = FOO_NS1.validate_at(NOW).expect("foo.ns1 must be valid");
    let resolver = bundle.server_config().identity().as_ref().expect("a certificate");
    let foo = FOO.as_bytes();
    let bar = BAR.as_bytes();
    let schemes = [SIGNATURE_SCHEME];
    assert!(resolver.has_certs());
    assert!(resolver.resolve_(&schemes).is_some());
    assert!(resolver.resolve_(&[0x0804]).is_none());
    assert!(resolver.resolve_client(&[], &schemes).is_some());
    assert!(resolver.resolve_client(&[vec![1]], &[]).is_none());
    let found = resolver.resolve_server(Some(foo), &schemes).expect("foo is served");
    assert_eq!(found.cert, vec![FOO_NS1_CRT.to_vec()]);
    assert!(resolver.resolve_server(Some(bar), &schemes).is_none());
    assert!(resolver.resolve_server(None, &schemes).is_none());
    assert!(resolver.resolve_server(Some(foo), &[0x0804]).is_none());
    // The name is judged as webpki judges it: a final dot makes it absolute,
    // and what is no DNS name is served nothing.
    let absolute = format!("{}.", FOO);
    assert!(resolver.resolve_server(Some(absolute.as_bytes()), &schemes).is_some());
    assert!(resolver.resolve_server(Some(b"foo..ns1"), &schemes).is_none());
    assert!(resolver.resolve_server(Some(b""), &schemes).is_none());
}

#[test]
fn configurations_hold_their_protocols() {
    let mut client = ClientConfig::new(vec![b"h2".to_vec()]);
    assert_eq!(client.protocols(), &vec![b"h2".to_vec()]);
    assert!(client.roots().is_empty());
    assert!(client.identity().is_none());
    client.set_protocols(vec![b"http/1.1".to_vec(), b"h2".to_vec()]);
    assert_eq!(client.protocols(), &vec![b"http/1.1".to_vec(), b"h2".to_vec()]);
    assert!(ClientConfig::empty().protocols().is_empty());

    let mut server = ServerConfig::new(vec![b"h2".to_vec()]);
    server.add_protocols(b"http/1.1".to_vec());
    assert_eq!(server.alpn_protocols(), &vec![b"h2".to_vec(), b"http/1.1".to_vec()]);
    assert_eq!(server.client_auth(), ClientAuth::NotRequested);
    assert!(server.identity().is_none());
    let empty = ServerConfig::empty();
    assert!(empty.alpn_protocols().is_empty());
    assert!(empty.identity().is_none());
    assert_eq!(empty.versions(), &vec![0x0303, 0x0304]);
}

#[test]
fn signing_request_must_not_be_empty() {
    assert!(Csr::from_der(vec![]).is_none());
    let csr = Csr::from_der(FOO_NS1_CSR.to_vec()).expect("a request");
    assert_eq!(csr.to_vec(), FOO_NS1_CSR.to_vec());
    assert_eq!(Csr::from_der(vec![7]).unwrap().to_vec(), vec![7]);
}

#[test]
fn token_must_not_be_empty() {
    let source = TokenSource::if_nonempty_file("/var/run/token".to_string(), b"abc");
    let source = source.expect("a token");
    assert_eq!(source.as_path(), "/var/run/token");
    assert_eq!(source.load(b"xyz"), Ok(b"xyz".to_vec()));
    assert_eq!(source.load(b""), Err(TokenError::Empty));
    let refused = TokenSource::if_nonempty_file("/var/run/token".to_string(), b"");
    assert_eq!(refused.err(), Some(TokenError::Empty));
}

#[test]
fn certificate_keeps_the_identity_it_was_made_for() {
    let (_, _, crt) = BAR_NS1.parts();
    assert_eq!(crt.name().to_string(), BAR);
    assert_eq!(crt.id().0.to_string(), BAR);
}

#[test]
fn empty_server_configuration_presents_nothing() {
    let config = empty_config();
    assert!(config.identity().is_none());
    assert!(config.roots().is_empty());
    assert!(config.alpn_protocols().is_empty());
    assert_eq!(config.client_auth(), ClientAuth::NotRequested);
}

#[test]
fn outcome_of_signing_is_kept() {
    assert_eq!(Signer::signed(Some(vec![1, 2, 3])), Ok(vec![1, 2, 3]));
    assert_eq!(Signer::signed(None), Err(SigningFailed));
}

#[test]
fn outcome_of_reading_a_key_is_kept() {
    let alg = &ring::signature::ECDSA_P256_SHA256_ASN1_SIGNING;
    let refused = match ring::signature::EcdsaKeyPair::from_pkcs8(alg, &[1, 2, 3]) {
        Err(reason) => Key::from_parsed(Err(reason)),
        Ok(_) => panic!("three bytes are no key"),
    };
    match refused {
        Err(e) => assert_eq!(e.message(), "InvalidEncoding"),
        Ok(_) => panic!("three bytes are no key"),
    }
    let key = Key::from_pkcs8(FOO_NS1_KEY).ok().expect("the key must load");
    assert_eq!(key.share().public_key(), key.public_key());
}

/// The two integers of an ASN.1 signature, if `bytes` is a sequence of two
/// integers and nothing else.
fn integers_of(bytes: &[u8]) -> Option<(&[u8], &[u8])> {
    if bytes.len() < 8 || bytes[0] != 0x30 || bytes[1] as usize + 2 != bytes.len() {
        return None;
    }
    if bytes[2] != 0x02 {
        return None;
    }
    let first = bytes[3] as usize;
    if 6 + first > bytes.len() || bytes[4 + first] != 0x02 {
        return None;
    }
    let second = bytes[5 + first] as usize;
    if 6 + first + second != bytes.len() {
        return None;
    }
    Some((&bytes[4..4 + first], &bytes[6 + first..]))
}

#[test]
fn signatures_are_two_integers_and_verify() {
    let key = Key::from_pkcs8(FOO_NS1_KEY).ok().expect("the key must load");
    let signer = SigningKey::new(key.share()).choose_scheme(&[SIGNATURE_SCHEME]).expect("a signer");
    let public = ring::signature::UnparsedPublicKey::new(
        &ring::signature::ECDSA_P256_SHA256_ASN1,
        key.public_key().to_vec(),
    );
    let messages: [&[u8]; 4] = [b"", b"hello", &[0u8; 300], FOO_NS1_CRT];
    for message in messages {
        for _ in 0..16 {
            let signature = signer.sign(message).expect("signing works");
            assert!(signature.len() >= 8 && signature.len() <= 72);
            let (r, s) = integers_of(&signature).expect("a sequence of two integers");
            assert!(!r.is_empty() && r.len() <= 33);
            assert!(!s.is_empty() && s.len() <= 33);
            assert!(public.verify(message, &signature).is_ok());
            assert!(public.verify(b"another message", &signature).is_err());
        }
    }
}

const FOO_NS1_PUBLIC_KEY: &[u8] = &[
    0x04, 0x68, 0x9f, 0x52, 0xe2, 0x8b, 0xb7, 0xdf, 0xcf, 0x95, 0x4c, 0x2d, 0xe4, 0x2b, 0xaf, 0xb7,
    0x0d, 0xe0, 0xb8, 0xab, 0x26, 0x90, 0x48, 0xac, 0xc5, 0x23, 0xfb, 0x82, 0xea, 0xae, 0x95, 0x12,
    0x29, 0x58, 0x20, 0xf1, 0x68, 0x0a, 0xbd, 0xa5, 0xe4, 0x07, 0x60, 0xb2, 0xf8, 0x0b, 0x41, 0x5e,
    0x15, 0xd8, 0xb9, 0x89, 0x54, 0x79, 0xa6, 0x0b, 0x29, 0xab, 0xd0, 0xbe, 0xaf, 0xe8, 0xee, 0x7c,
    0x5a,
];

#[test]
fn key_has_the_public_key_of_its_document() {
    let key = Key::from_pkcs8(FOO_NS1_KEY).ok().expect("the key must load");
    assert_eq!(key.public_key(), FOO_NS1_PUBLIC_KEY);
    // It is the key that the certificate was issued for.
    assert_eq!(&FOO_NS1_CRT[216..281], FOO_NS1_PUBLIC_KEY);
    let other = Key::from_pkcs8(BAR_NS1_KEY).ok().expect("the key must load");
    assert_ne!(other.public_key(), FOO_NS1_PUBLIC_KEY);
    assert_eq!(other.public_key().len(), 65);
}

#[test]
fn refused_key_gives_its_reason() {
    // A document cut short.
    match Key::from_pkcs8(&FOO_NS1_KEY[..100]) {
        Err(e) => assert_eq!(e.message(), "InvalidEncoding"),
        Ok(_) => panic!("a part of a document is no key"),
    }
    // A document whose public key is not that of its private key.
    let mut mixed = FOO_NS1_KEY.to_vec();
    let last = mixed.len() - 1;
    mixed[last] ^= 1;
    match Key::from_pkcs8(&mixed) {
        Err(e) => assert_eq!(e.message(), "InconsistentComponents"),
        Ok(_) => panic!("the parts do not belong together"),
    }
}
