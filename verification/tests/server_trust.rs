//! Server authentication against real certificates: a chain to a public root,
//! as its issuer published it, looked at while it was valid.
use vm_relay::audit::EventKind;
use vm_relay::tls::pin::{PinnedWebPkiVerifier, VerifyError};

/// A server certificate for `testssl.kamusm.gov.tr`.
const SERVER: &str = "\
    3082066d30820555a003020102020a00d2e769988d256bd67e300d06092a864886f70d01010b05003081df310b30\
    090603550406130254523118301606035504070c0f4765627a65202d204b6f6361656c6931423040060355040a0c\
    395475726b6979652042696c696d73656c2076652054656b6e6f6c6f6a696b20417261737469726d61204b757275\
    6d75202d205455424954414b312d302b060355040b0c244b616d7520536572746966696b6173796f6e204d65726b\
    657a69202d204b616d7520534d3143304106035504030c3a5455424954414b204b616d7520534d2053534c205365\
    72746966696b612048697a6d6574205361676c61796963697369202d20537572756d2031301e170d313730333037\
    3035343430375a170d3230303330363035343430375a3074310b30090603550406130254523110300e0603550408\
    0c075455524b4959453110300e06035504070c074b4f4341454c493110300e060355040a0c075455424954414b31\
    0f300d060355040b0c064b616d75534d311e301c06035504030c157465737473736c2e6b616d75736d2e676f762e\
    747230820122300d06092a864886f70d01010105000382010f003082010a0282010100c5dada49610eee3631f933\
    d318441560355e69b0473dcf0caeb95502cdf076b940e3d3f572c5d8c2c8d78ef00df4f03d4b095dadd52930de6e\
    6f28c701ce7c934a14b027f3bd4b58314d91cad4587dbe1ff2cc3fe92037ace4485a2a5e948ce358400ac03deebd\
    17fc141b2265a7ae49967d5983c62c3baa419e4c7bc25864299cb9449e290c791469dfc3538c621989babd48d58c\
    2455efd7e3f9c9a21e25279f04a904ef5020c49034e4814d396ca7b88fff9f273e0a1bfe1c40b7588c9bf59d247d\
    6137b34e5a342136d8e7a34c932ad448d3f86d2730a85c2d2a4d9ba4a6551af7d7a2c5905d931beffec7917dba30\
    d8ebbf71e72a010daf4d18c41a6cd50203010001a38202933082028f301f0603551d23041830168014f6353517ae\
    2efbb77df776178a6564eb677a40ab301d0603551d0e0416041416c04e3083d5fc25b925bdfde32af22003300980\
    300e0603551d0f0101ff0404030205a03082013d0603551d20048201343082013030820122060b60861801020101\
    0507010330820111302a06082b06010505070201161e687474703a2f2f6465706f2e6b616d75736d2e676f762e74\
    722f696c6b653081e206082b060105050702023081d51e81d2004200750020007300650072007400690066006900\
    6b006100200069006c006500200069006c00670069006c006900200073006500720074006900660069006b006100\
    200075007900670075006c0061006d006100200065007300610073006c006100720131006e01310020006f006b00\
    75006d0061006b0020006900e70069006e002000620065006c0069007200740069006c0065006e00200077006500\
    620020007300690074006500730069006e00690020007a0069007900610072006500740020006500640069006e00\
    69007a002e3008060667810c01020230090603551d1304023000301d0603551d250416301406082b060105050703\
    0106082b06010505070302303c0603551d1f043530333031a02fa02d862b687474703a2f2f6465706f2e6b616d75\
    736d2e676f762e74722f73736c2f53534c53494c2e53312e63726c307206082b0601050507010104663064303606\
    082b06010505073002862a687474703a2f2f6465706f2e6b616d75736d2e676f762e74722f73736c2f53534c534d\
    2e53312e636572302a06082b06010505073001861e687474703a2f2f6f63737073736c73312e6b616d75736d2e67\
    6f762e747230200603551d110419301782157465737473736c2e6b616d75736d2e676f762e7472300d06092a8648\
    86f70d01010b0500038201010057d73cc7648cb01513ad0109866c67acf748f56b79fdd3f54a07b6615f73eaab9b\
    2db112bfb3b74c850bf2c465f390c84797ecb7131f1bc3b776e0749d1e77bb3920a7a44d778c1406c4f23fd0b439\
    ee470e524e6179aea811b9edc64cd6bbb0bd978e42f77689bb061dd31defc985d1270f432825e07285c267839f2f\
    8c69aca963d387fa05581ac375a8171dac9d920b90e678556028b16eb6e6f0e4f85c9dde66ea5ab6d1e6c6f0f9a8\
    c04078632ef62bb8b50be41cc3bbc72b63056d2a18f80e6a671cbac160a2480ed002f03dad256c64567711eb3e02\
    2ee4ddf7c0fa938b591ce6c2d22f1d7af00e4d6324903fb0ac7f5eb5df5cbf3f30a9d2e3f353d3";

/// The certificate that issued it.
const ISSUER: &str = "\
    308206723082055aa003020102020129300d06092a864886f70d01010b05003081d2310b30090603550406130254\
    52311830160603550407130f4765627a65202d204b6f6361656c6931423040060355040a13395475726b69796520\
    42696c696d73656c2076652054656b6e6f6c6f6a696b20417261737469726d61204b7572756d75202d2054554249\
    54414b312d302b060355040b13244b616d7520536572746966696b6173796f6e204d65726b657a69202d204b616d\
    7520534d313630340603550403132d5455424954414b204b616d7520534d2053534c204b6f6b2053657274696669\
    6b617369202d20537572756d2031301e170d3135303531343133333232375a170d3235303531313133333232375a\
    3081df310b30090603550406130254523118301606035504070c0f4765627a65202d204b6f6361656c6931423040\
    060355040a0c395475726b6979652042696c696d73656c2076652054656b6e6f6c6f6a696b20417261737469726d\
    61204b7572756d75202d205455424954414b312d302b060355040b0c244b616d7520536572746966696b6173796f\
    6e204d65726b657a69202d204b616d7520534d3143304106035504030c3a5455424954414b204b616d7520534d20\
    53534c20536572746966696b612048697a6d6574205361676c61796963697369202d20537572756d203130820122\
    300d06092a864886f70d01010105000382010f003082010a0282010100bdbfa0e0ac3ace51aea539c40f2a66e1cc\
    cb686e8d419e2de638a9ca08084f8ab92e5b2ef7b12ab9ad9194bfc02ad6c6a39e3ab88d942d45ee589ae321cc26\
    9dfdbc6f2feb381a8b17b2c82c5e888b770051f388ec7bc5f388a8b4b96206e6f85c84c125ce2c0fb08e0ec51e82\
    79d083739bf63e21e37dea360103fff51fd6fbe8a148b06b569f50a933382548fa8abac9a88abe25dcdcd010361f\
    ebcc6617307f5436d83ddf748fa6f3c794fff18f51474096fe6edee8309f32d0428c2424ba6e84f517927e01a2cd\
    c0f34866d0405c550416178bf86006c3fa4724ae64d07d3e0aeeea14b1b2406930fa29a607950416fff847520d36\
    d1aad8797d5b0494430203010001a38202423082023e301f0603551d23041830168014653fc78a86c63cdd3c545c\
    35f83aed520c4757c8301d0603551d0e04160414f6353517ae2efbb77df776178a6564eb677a40ab300e0603551d\
    0f0101ff0404030201063082011b0603551d20048201123082010e3082010a0604551d200030820100302b06082b\
    06010505070201161f687474703a2f2f6465706f2e6b616d75736d2e676f762e74722f696c6b652f3081d006082b\
    060105050702023081c31e81c00042007500200073006500720074006900660069006b006100200069006c006500\
    200069006c00670069006c006900200053006500720074006900660069006b006100200049006c006b0065006c00\
    6500720069006e00690020006f006b0075006d0061006b0020006900e70069006e002000620065006c0069007200\
    740069006c0065006e00200077006500620020007300690074006500730069006e00690020007a00690079006100\
    72006500740020006500640069006e0069007a002e30120603551d130101ff040830060101ff020100303f060355\
    1d1f043830363034a032a030862e687474703a2f2f6465706f2e6b616d75736d2e676f762e74722f73736c2f5353\
    4c4b4f4b53494c2e53312e63726c307806082b06010505070101046c306a303906082b06010505073002862d6874\
    74703a2f2f6465706f2e6b616d75736d2e676f762e74722f73736c2f53534c4b4f4b534d2e53312e636572302d06\
    082b060105050730018621687474703a2f2f6f63737073736c6b6f6b73312e6b616d75736d2e676f762e7472300d\
    06092a864886f70d01010b05000382010100ac3077ff1f8affd4935ff45c54a44f3b99afd375258beeed899939d6\
    2a68e48b693e94946e31eb5f2e04c2d73446b6bfcc51471fb00417101453748bd4cdec65c993312bd27d585b356e\
    a46541355516346619c165ed29635780397c63d37153a841abbac845cb04ea82b15974bb90ff849f63cffc69fc88\
    e52b47ea700e88c8320cda6997ddd7212d14eb3cf58823b06fa4e80584c020af8114fd383cc036c2a73bba58101f\
    4baef293cfce4751a2cb4c6b1c2d4ab79e740f9c0861312b93b203f057d15b6394453125c9a6a18ddf5ceeb3d6ad\
    3f1b63d6b6f96c059075910916a5481a4dca225943bff2a3194602e663e8e50a4b63aa9ee692bc2eb2bcc41e";

/// The SHA-256 fingerprint of the server certificate.
const FINGERPRINT: &str = "8f0d491077ddc360e7416620af2cf4a8a4010e5b6f5a6d0f557f4f2499a38029";

/// A moment at which both certificates are valid.
const VALID_AT: u64 = 1_493_668_479;

fn server() -> Vec<u8> {
    hex::decode(SERVER).unwrap()
}

fn issuers() -> Vec<Vec<u8>> {
    vec![hex::decode(ISSUER).unwrap()]
}

fn pinned_to(pin: &str) -> PinnedWebPkiVerifier {
    match PinnedWebPkiVerifier::from_hex(pin) {
        Ok(verifier) => verifier,
        Err(notice) => panic!("{}", notice.message),
    }
}

#[test]
fn the_pinned_server_is_accepted() {
    let answer = pinned_to(FINGERPRINT).verify_server_cert(
        &server(),
        &issuers(),
        "testssl.kamusm.gov.tr",
        &[],
        VALID_AT,
    );
    assert!(answer.is_ok(), "{answer:?}");
}

#[test]
fn another_fingerprint_is_refused() {
    let pinned = pinned_to(&"00".repeat(32));
    let answer = pinned.verify_server_cert(
        &server(),
        &issuers(),
        "testssl.kamusm.gov.tr",
        &[],
        VALID_AT,
    );
    match answer {
        Err(VerifyError::PinMismatch { received }) => {
            assert_eq!(hex::encode(received), FINGERPRINT);
            let notice = pinned.mismatch_notice(&received);
            assert_eq!(notice.kind, EventKind::ServerPinMismatch);
            assert_eq!(
                notice.message,
                format!(
                    "Server certificate pin mismatch; expected={}; received={}",
                    "00".repeat(32),
                    FINGERPRINT
                )
            );
        }
        other => panic!("{other:?}"),
    }
}

#[test]
fn the_right_fingerprint_does_not_make_up_for_the_rest() {
    let pinned = pinned_to(FINGERPRINT);
    let name = "testssl.kamusm.gov.tr";
    // Another name.
    let answer = pinned.verify_server_cert(&server(), &issuers(), "example.org", &[], VALID_AT);
    assert!(matches!(answer, Err(VerifyError::Chain(_))));
    // A name that is none.
    let answer = pinned.verify_server_cert(&server(), &issuers(), "not a name", &[], VALID_AT);
    assert!(matches!(answer, Err(VerifyError::Chain(_))));
    // Before and after the time of validity.
    let answer = pinned.verify_server_cert(&server(), &issuers(), name, &[], 1_000_000_000);
    assert!(matches!(answer, Err(VerifyError::Chain(_))));
    let answer = pinned.verify_server_cert(&server(), &issuers(), name, &[], 1_800_000_000);
    assert!(matches!(answer, Err(VerifyError::Chain(_))));
    // Without the certificate that leads to the root.
    let answer = pinned.verify_server_cert(&server(), &vec![], name, &[], VALID_AT);
    assert!(matches!(answer, Err(VerifyError::Chain(_))));
    // Something that is no certificate.
    let answer = pinned.verify_server_cert(b"certificate", &issuers(), name, &[], VALID_AT);
    assert!(matches!(answer, Err(VerifyError::Chain(_))));
}

#[test]
fn a_stapled_response_changes_nothing() {
    let answer = pinned_to(FINGERPRINT).verify_server_cert(
        &server(),
        &issuers(),
        "testssl.kamusm.gov.tr",
        b"response",
        VALID_AT,
    );
    assert!(answer.is_ok());
}

#[test]
fn the_refusal_of_the_chain_is_handed_on() {
    let pinned = pinned_to(FINGERPRINT);
    let refusal = rustls::Error::General("refused".to_string());
    match pinned.enforce_pin(Err(refusal), pinned.expected_pin) {
        Err(VerifyError::Chain(rustls::Error::General(text))) => assert_eq!(text, "refused"),
        other => panic!("{other:?}"),
    }
    assert!(pinned.enforce_pin(Ok(()), pinned.expected_pin).is_ok());
    let mut received = pinned.expected_pin;
    received[31] ^= 1;
    match pinned.enforce_pin(Ok(()), received) {
        Err(VerifyError::PinMismatch { received: got }) => assert_eq!(got, received),
        other => panic!("{other:?}"),
    }
}
