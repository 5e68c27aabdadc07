//! Enrolments from submission to issue, with certification requests that other
//! tools produced.
use open_eidas::castore::{Certificate, CertificateStatus, RequestState, StoreError};
use open_eidas::clock::{Duration, Timestamp};
use open_eidas::decision::{decide_in_memory, Decider};
use open_eidas::enrolment::{issue_in_memory, submit_in_memory, Surroundings};
use open_eidas::extensions::crl_issued_serials;
use open_eidas::memory::Memory;
use open_eidas::raflow::{
    comment_suffix, common_name, fingerprint, judge_csr, parse_and_verify_csr, signature,
    transaction_id, verify_hmac, RaflowError,
};
use open_eidas::submission::{Flow, Options, SubmitAnswer, SubmitResult, SubmitStep};
use sha2::Digest;

const CSR_TSU: &str = "\
30820360308201c8020100301b3119301706035504030c107473752e6578616d706c652e746573743082\
01a2300d06092a864886f70d01010105000382018f003082018a02820181009e3b0cb4177260631ae3c3\
08f2d00a8b0d4b86f780ccfb58767b0e1602e73120e12b105b735040f728beee1a6988efc29f2663f235\
59be0b95920584da0658c2ae313ee0dcfe0966fc3ed8f1571a1699dd142b00e18cd58c7494627d6c4424\
b36c6f86c3eaf4a89131a9870a1357436ff4947375bdc803ad1b552f825cfbfebc5a1e121abf2f1ebeff\
49a8b06c1f46b1013a557054d5b4f7c82665bd4741f554167c96e8833a2130f0b4f9498fa88521b3106e\
050dff59983bfc5619193923223999802ca43196e577d3d781d2d1cb51bfab3fd0cfb547dbe3bf2e5a10\
196b9ce116175481b49ad6449fba7a280c9fc31b26d93efbe631639c1a47c05525ffc567f4d9fcb57613\
de8e6177dea30dcdff335aa866daab067901366fdb7e9a43cf765e97267322390940d0428942d5646d6d\
cb6de17acecefcca442fd06a2aa91b0b31649066b24ebe7c623783b87cb8243664ba00fd85659cfdc264\
d4df91902b9cf9b9f43c601a9420a61d5598a4b17119114cbcb9958a709f953c43375a5a5b0203010001\
a000300d06092a864886f70d01010b0500038201810093425a9df3df6d0ea8127f647e2ceffe88d0712f\
797ba120ba100a5ae4410cd84e7c60a837730d2018de0255a1512ce3c1ef59ea46f1a4371968009a883a\
d688d88913340031274f5c52fcd71eb9428513b2a65da8774b0b09267d7decbb84104ae797be5b3f378c\
22f894f24aecd4f52cc852ab5ae5b09ca7c412fb20a31dc5af51aaaddd98d1554fe311ade15a55ef0ff9\
c23ee7ace368f83438f507301a2e298db3bd5ba00b77c35cd6ca0483e9d1e2ef2631329a4ebabe3fd124\
6857422e2acba11c065bacb47e12e3ae7d3300da09b3215307ba3b99bb40d08d6b40d47dbef16d88ea66\
122e5fda426afd03875a55b1e21a3e15228ffec9dd352ff59d19c2a221f287e1cea0e54c5878902290c3\
42765166873e6cab5f92b7edc80ed17e792d141d1690be992f10c2d8f024c66cab5dc74cee19d0544bbb\
f6f1e936268afe299d525d88ec369bc5d36286663cfa41cb0ed92f1651b7cea7c61dbf88d1ad1218c5cb\
815bc6a9162555f00322b416582aac3398ad422cae82ace71cb317fe";

const CSR_TSU_AGAIN: &str = "\
30820360308201c8020100301b3119301706035504030c107473752e6578616d706c652e746573743082\
01a2300d06092a864886f70d01010105000382018f003082018a0282018100f5bdfa4c85410564a83ebf\
6e34c4e0188609902d97d1396c284b87cf2b268957bd7709692ddeaf1690137dc99ce39c6b89bf23d87b\
3ebef9aa8131a8e33176a64754ac6e7f094114ba1b3a79224804370db811184067fd525ec41fd456912f\
83c02ea7712a2dd21b942f29315b9aac2c1ba4610e7d05a26008321f85f65a9d8de1c521540b4a7d5b87\
62e7d246f9c962899388361799a0c5f6cb00e19ddccfb6220a82f3e742d02e672c84faf9828fe2dec2d1\
fcef0c4ced4ab5b670a8e413307513dbefc7adc53cd57aae85ec14e67531ca4277a4fc7ed7f539171497\
551b143f42d55ce34b2465970a33a883c5d03b5c7fbc96b15f35a896897ccc4e48a07fabab68d5635ab8\
c1db175f114c24cd4b79b03fb66115cb927b0559771c3213047ac0463b1172ac39170cf38ad2a5021fe7\
6963ff5292b5c7d4208b88c1f13a702947c9ce4cd2473c74fc201f5fb909025487b0772dfdaa35a14e84\
618f88455277a248d2dcfbf9d4b1d611e2dea0d43ca91f755ebe1db7cdd0592fb9b244fe590203010001\
a000300d06092a864886f70d01010b050003820181003f52552c6a6863ccdfdc112717a4f9637bb68e24\
ef9f1a9b0abd212c9fd063f3b6f293ac6efca995267c821e1bb21f44aa7ad8aace8e3ec37a70bb025cae\
fbf95e2ff8fbbe6502af6b254b46f3b2eeb45fe55d3c4a30b0fb1fa52f29eb9a2be2591bc671d6479a2c\
374ee444296a4b1c5104ca0a2609c0055758b6258b92d5dda8c3230039914008cf4c9123e2083a8f4f4d\
3ee91e7138de9c8fac4b50a2e38cb84c4350f8ccb59948cbf86d91b3eb2c40fd1588fb6507c4b35011fd\
db35fc02d0a192996bf0999f975900cea7d7ca1895c63cef0c27d940fdcc674da5318c8b3a76e96fd332\
79f380630525fdb76a946f7aec2cd493de0abc3343a4532269acd6b109273e30379be4293e1ad350156f\
62dd48f2e384caf7a0011d4b838c0401a6021810daeb3631ccd83d59a1e9a471b01bf2f752a4276a893e\
4a1154ef12bff2b9bb9d1999db350ef56c1a6c8b039e894a2fc285e26a33326dbc52582b7e8968f5252a\
3caf76c8a0b7a329284fe98742291c82b280fb92b8052eeec12d1dce";

const CSR_SHORT: &str = "\
3082026030820148020100301b3119301706035504030c107473752e6578616d706c652e746573743082\
0122300d06092a864886f70d01010105000382010f003082010a0282010100eb41205cbe5703e892763d\
ee5677b85585ae207340eaecdd450f8078353b33f69d5f050bafd67681a7ba0dd83adab72a8e5f377411\
49b94a0df0d06ab8afc2f9446de1c69a9100923c8d05be9b50e6ed5fa6d133cabccf1335423629fb2d55\
abfd58795ac16cd9a5a69fa8eac11b0d0e25873b2a61bf81bf5b1508bfbc10cab264d798cdfca42e992b\
2b5d2a41e1a5e6e3d33f4b5fdc00b7102c9aa46d7f5abdb61ef01bef2088870e609571c73bff01e7f584\
c521832514e5142e92271bb331a617044bdd300a9672434208aec009c41fa62b4bfe2d1d19724cf7764f\
2c05c6304f3c65d2c78af53737a79b93085fdc81c478231a15ba5e93295441e15eccd90203010001a000\
300d06092a864886f70d01010b0500038201010033b722cec4a25565466678107f6d22e7eab9e7056a7e\
f00e2141014424a5bcf21e487a0d8388117ab79591816b2056911bab337c8a640eab4c3ab5630dea5828\
4d1f2818dd920493c9483bd7cc060993564d6c81dae996b1350b7c817d633ec80bd1b3152d6a70200ae4\
9be8b5f9c327a259547e2087a6bf30da5f24c4c8ce14faf6d3f422f63fe472a5060348f8196b7615bd82\
b8b400dd73b96c13a20cd776ad4ae62b292687f88585030228e5637f8a16662644b7562f36c159fdb684\
c220b1960fd5f97aa86cfc6a8b6abe6533b02bc26a7efe912ff659b4baa04ccbf2f0fd0f2311f4872640\
805b497c5c12953b6e61b2188e579ee2d0c8bb49fc6d38f6";

const CSR_AUDIT: &str = "\
30820362308201ca020100301d311b301906035504030c1261756469742e6578616d706c652e74657374\
308201a2300d06092a864886f70d01010105000382018f003082018a02820181009e3b0cb4177260631a\
e3c308f2d00a8b0d4b86f780ccfb58767b0e1602e73120e12b105b735040f728beee1a6988efc29f2663\
f23559be0b95920584da0658c2ae313ee0dcfe0966fc3ed8f1571a1699dd142b00e18cd58c7494627d6c\
4424b36c6f86c3eaf4a89131a9870a1357436ff4947375bdc803ad1b552f825cfbfebc5a1e121abf2f1e\
beff49a8b06c1f46b1013a557054d5b4f7c82665bd4741f554167c96e8833a2130f0b4f9498fa88521b3\
106e050dff59983bfc5619193923223999802ca43196e577d3d781d2d1cb51bfab3fd0cfb547dbe3bf2e\
5a10196b9ce116175481b49ad6449fba7a280c9fc31b26d93efbe631639c1a47c05525ffc567f4d9fcb5\
7613de8e6177dea30dcdff335aa866daab067901366fdb7e9a43cf765e97267322390940d0428942d564\
6d6dcb6de17acecefcca442fd06a2aa91b0b31649066b24ebe7c623783b87cb8243664ba00fd85659cfd\
c264d4df91902b9cf9b9f43c601a9420a61d5598a4b17119114cbcb9958a709f953c43375a5a5b020301\
0001a000300d06092a864886f70d01010b0500038201810022eaa64138f11459fb9bd026972ed3e81601\
e1db52c71eb599f2a077fca68b5758f7339a27213d6d5951bdfa4210349cd3c25dd995c1adeef01e73fc\
796a98d7225ee3e5b7ec52410bbe0302e8411271da5d3a0fd950833dafe0073c0de02c8c8d175d059c5d\
727803e0b1713d3e6ab81be1a3ba99da56151641c621467ad0f7491b23ac78480cd08ee2cdfc2fdaf52d\
669e90dc0e4bfab8ab7ce199da4d3ca1ac32be61f5a8b46f1a455213f956fcac70cc216f3d73b2989e41\
6a768254d074e8936488425ba1092085ac6164958175bd227d376976b87297110b612a6ee441101b0c52\
9273ed43c73d8ed83e855406ca7f8f75d24b3685468ce222c5d1e7f63d77a3258259f47a84f2b6174744\
0286d4af78907496ac36319379db63e91c487120b1290c3ee3e61859cfe3a3afc4bc87be46de990275d5\
b6f52c298b69a1386f93b9e8282f7c5104fe37a287d295dbd27e55dad402059336bd94e6e02670811601\
7c3929443aac00f4ccf8f74c46cd2f006c6c693c6d83029db20f3fad2618";

const CSR_NAMELESS: &str = "\
3082035a308201c2020100301531133011060355040a0c0a4f70656e206549444153308201a2300d0609\
2a864886f70d01010105000382018f003082018a02820181009e3b0cb4177260631ae3c308f2d00a8b0d\
4b86f780ccfb58767b0e1602e73120e12b105b735040f728beee1a6988efc29f2663f23559be0b959205\
84da0658c2ae313ee0dcfe0966fc3ed8f1571a1699dd142b00e18cd58c7494627d6c4424b36c6f86c3ea\
f4a89131a9870a1357436ff4947375bdc803ad1b552f825cfbfebc5a1e121abf2f1ebeff49a8b06c1f46\
b1013a557054d5b4f7c82665bd4741f554167c96e8833a2130f0b4f9498fa88521b3106e050dff59983b\
fc5619193923223999802ca43196e577d3d781d2d1cb51bfab3fd0cfb547dbe3bf2e5a10196b9ce11617\
5481b49ad6449fba7a280c9fc31b26d93efbe631639c1a47c05525ffc567f4d9fcb57613de8e6177dea3\
0dcdff335aa866daab067901366fdb7e9a43cf765e97267322390940d0428942d5646d6dcb6de17acece\
fcca442fd06a2aa91b0b31649066b24ebe7c623783b87cb8243664ba00fd85659cfdc264d4df91902b9c\
f9b9f43c601a9420a61d5598a4b17119114cbcb9958a709f953c43375a5a5b0203010001a000300d0609\
2a864886f70d01010b0500038201810016dc6595652cb5cad68f92fd9c47dd758f19c3477eabbca2ecf4\
4657b29f1c7ca4fe6c5fa6db9b1d445e001690a271fe6a677fd8c6b813d06e7f40e8a5f4791b6bc6e84f\
d3536ed40a305830f73194ba90f5ded2bd193b473dae9f6fe2f26f88deab7d1e694a60401edd84c9a342\
4f94ded3b4cbcad47cedb0e93c5ca7d781246338743c27dd6c8db0740826b908c841595529e0dc39fa01\
960b90165c9d26835ccddbfd3522506944ab4112725516dba0000e1fd4e5f92d8f2f527ccdbee1815beb\
2001b6b968fc85b1ab99aad05e76557d48aaeacb3a8e91319776c351932c6d15d73ee1c392a72abbd716\
2df8c1cdf160685d01253831e7d6377014ce7484d43099a02c9d43bc058b45b13cbf66427aa9e6df9243\
bb52e3ee458944c85d3a2d20cf5bffb4c914c8f46c8b6f5fe64fce517af58ad40846d868af80931728f2\
7763a5ea70e8bb348d5d446ddc625e2f4d0f8389cbdba97ac074ea08ce48c51da95029ff31611922a3f5\
27ef0ca4e284a95e79f6b53cb98ad9afbe69daa70e8a";

const CSR_FORGED: &str = "\
30820360308201c8020100301b3119301706035504030c107473752e6578616d706c652e746573743082\
01a2300d06092a864886f70d01010105000382018f003082018a02820181009e3b0cb4177260631ae3c3\
08f2d00a8b0d4b86f780ccfb58767b0e1602e73120e12b105b735040f728beee1a6988efc29f2663f235\
59be0b95920584da0658c2ae313ee0dcfe0966fc3ed8f1571a1699dd142b00e18cd58c7494627d6c4424\
b36c6f86c3eaf4a89131a9870a1357436ff4947375bdc803ad1b552f825cfbfebc5a1e121abf2f1ebeff\
49a8b06c1f46b1013a557054d5b4f7c82665bd4741f554167c96e8833a2130f0b4f9498fa88521b3106e\
050dff59983bfc5619193923223999802ca43196e577d3d781d2d1cb51bfab3fd0cfb547dbe3bf2e5a10\
196b9ce116175481b49ad6449fba7a280c9fc31b26d93efbe631639c1a47c05525ffc567f4d9fcb57613\
de8e6177dea30dcdff335aa866daab067901366fdb7e9a43cf765e97267322390940d0428942d5646d6d\
cb6de17acecefcca442fd06a2aa91b0b31649066b24ebe7c623783b87cb8243664ba00fd85659cfdc264\
d4df91902b9cf9b9f43c601a9420a61d5598a4b17119114cbcb9958a709f953c43375a5a5b0203010001\
a000300d06092a864886f70d01010b0500038201810093425a9df3df6d0ea8127f647e2ceffe88d0712f\
797ba120ba100a5ae4410cd84e7c60a837730d2018de0255a1512ce3c1ef59ea46f1a4371968009a883a\
d688d88913340031274f5c52fcd71eb9428513b2a65da8774b0b09267d7decbb84104ae797be5b3f378c\
22f894f24aecd4f52cc852ab5ae5b09ca7c412fb20a31dc5af51aaaddd98d1554fe311ade15a55ef0ff9\
c23ee7ace368f83438f507301a2e298db3bd5ba00b77c35cd6ca0483e9d1e2ef2631329a4ebabe3fd124\
6857422e2acba11c065bacb47e12e3ae7d3300da09b3215307ba3b99bb40d08d6b40d47dbef16d88ea66\
122e5fda426afd03875a55b1e21a3e15228ffec9dd352ff59d19c2a221f287e1cea0e54c5878902290c3\
42765166873e6cab5f92b7edc80ed17e792d141d1690be992f10c2d8f024c66cab5dc74cee19d0544bbb\
f6f1e936268afe299d525d88ec369bc5d36286663cfa41cb0ed92f1651b7cea7c61dbf88d1ad1218c5cb\
815bc6a9162555f00322b416582aac3398ad422cae82ace71cb317ff";

const CSR_EC: &str = "\
3081d4307c020100301a3118301606035504030c0f65632e6578616d706c652e74657374305930130607\
2a8648ce3d020106082a8648ce3d03010703420004fbbb8da92e44408ed3d55e8b0190284ae54b170676\
04de8bb457802bab57ac76cd381c6b0a621099c525478047905b3c2d2dec70a5a6277874b64d78d7f8ea\
2ea000300a06082a8648ce3d04030203480030450220369d74d4e8da139a0ffa5f932d40deb97537be23\
c5d80884d7d1318567b7fc9c022100f39b9c30ac1fbae66232c985da739e32bae2076978059b40396b78\
c5a6784a21";

const CERT_TSU: &str = "\
308203d63082023ea00302010202023001300d06092a864886f70d01010b05003041310b300906035504\
061302465231183016060355040a0c0f4f70656e20654944415320546573743118301606035504030c0f\
546573742049737375696e67204341301e170d3236303130313030303030305a170d3336303130313030\
303030305a301b3119301706035504030c107473752e6578616d706c652e74657374308201a2300d0609\
2a864886f70d01010105000382018f003082018a02820181009e3b0cb4177260631ae3c308f2d00a8b0d\
4b86f780ccfb58767b0e1602e73120e12b105b735040f728beee1a6988efc29f2663f23559be0b959205\
84da0658c2ae313ee0dcfe0966fc3ed8f1571a1699dd142b00e18cd58c7494627d6c4424b36c6f86c3ea\
f4a89131a9870a1357436ff4947375bdc803ad1b552f825cfbfebc5a1e121abf2f1ebeff49a8b06c1f46\
b1013a557054d5b4f7c82665bd4741f554167c96e8833a2130f0b4f9498fa88521b3106e050dff59983b\
fc5619193923223999802ca43196e577d3d781d2d1cb51bfab3fd0cfb547dbe3bf2e5a10196b9ce11617\
5481b49ad6449fba7a280c9fc31b26d93efbe631639c1a47c05525ffc567f4d9fcb57613de8e6177dea3\
0dcdff335aa866daab067901366fdb7e9a43cf765e97267322390940d0428942d5646d6dcb6de17acece\
fcca442fd06a2aa91b0b31649066b24ebe7c623783b87cb8243664ba00fd85659cfdc264d4df91902b9c\
f9b9f43c601a9420a61d5598a4b17119114cbcb9958a709f953c43375a5a5b0203010001300d06092a86\
4886f70d01010b0500038201810018fc91ecb8662f675dc94b6b8797a0cd3d53079d90a5b5543b8af9f1\
48001010de4d22b3443d879c850a9d0f876b9201a44bc6a0ddf06f22c57e071f60abf2a1aa57e8c2fc07\
4d1ea94df816e68fc11b2889d06f1870268367b714ea1a78abb4bd783e1faeecc53ba032c9b9ca31207f\
108169eb0657f88b6f14adbf1da3b96bbfe6a88b921d8d7b921214a5f9ea6cf9b7f2fe77796fba7a4a00\
d7905b6eb558a50ba4690442564c8be99686943cc69e08f2ffe8814d180140c152c0e2ed3b233a181a1e\
3cda37557fc524b6fb91344b4979a818a590547c43bdbad5174195499196b5fe19f17cd26a9645468b30\
45ec7917e8bfd88d7f5705daa32befc2abc91a264b2dd8b8c2c684508e462254d434ce310412e02b39fc\
60cf10c1fb190746e34b3711bcb1fead5f99289b3c0705fadde2309d3666d2ee34da913d8afd42dbe9de\
452ebc57747685ed5e95919edaf2b6499a8a37c69ee8bc9254527db0f9fee050d1e446c26b7e33b89404\
250cc687d82bde905a0e3c6da46294802c01d1bb";

const HMAC_SECRET: &str = "secret-de-test";

const PROFILE: &str = "tsa_signer";

const SUBJECT: &str = "C=FR,O=Open eIDAS,OU=Time Stamping Authority,CN=tsu.example.test";

fn bytes(text: &str) -> Vec<u8> {
    hex::decode(text).unwrap()
}

fn test_flow() -> (Flow, Memory) {
    let flow = Flow::new(Options {
        hmac_secret: HMAC_SECRET.to_string(),
        retry_after: Duration::seconds(5),
    })
    .unwrap();
    (flow, Memory::new())
}

fn now() -> Timestamp {
    Timestamp { nanos: 1_793_588_645_000_000_000 }
}

fn around(journal: Result<(), String>) -> Surroundings {
    Surroundings { profile: Ok(PROFILE.to_string()), named: Ok(()), journal, now: now() }
}

fn submit(flow: &Flow, store: &mut Memory, csr: &[u8]) -> SubmitStep {
    let sig = signature(csr, HMAC_SECRET);
    submit_in_memory(flow, store, csr, PROFILE, &sig, around(Ok(())))
}

fn done(step: SubmitStep) -> Result<SubmitResult, RaflowError> {
    match step {
        SubmitStep::Done { result } => result,
        other => panic!("{other:?}"),
    }
}

fn failing_journal() -> Result<(), String> {
    Err("stockage du journal injoignable (test)".to_string())
}

fn approve(store: &mut Memory, transaction: &str, comment: &str) {
    let step = Decider::new().approve(transaction, "operateur-ra", comment);
    decide_in_memory(store, step, now(), Ok(())).unwrap();
}

fn line(serial: &[u8], der: Vec<u8>, transaction: &str) -> Certificate {
    Certificate {
        serial: serial.to_vec(),
        profile: PROFILE.to_string(),
        subject_dn: SUBJECT.to_string(),
        issuer_dn: "CN=Test Issuing CA".to_string(),
        not_before: now(),
        not_after: now().plus(Duration::days(365)),
        der,
        status: CertificateStatus::Issued,
        revoked_at: None,
        revocation_reason: 0,
        request_transaction_id: transaction.to_string(),
    }
}

/// Issues an approved request under a serial number, up to the end.
fn issue(flow: &Flow, store: &mut Memory, csr: &[u8], serial: &[u8], der: Vec<u8>) -> SubmitResult {
    let issue = match submit(flow, store, csr) {
        SubmitStep::Subject { issue } => issue,
        other => panic!("{other:?}"),
    };
    assert_eq!(issue.cn, "tsu.example.test");
    let transaction = issue.request.transaction_id.clone();
    store.reserve_serial(&serial.to_vec(), PROFILE).unwrap();
    let line = line(serial, der, &transaction);
    let step = issue_in_memory(flow, store, issue, SUBJECT.to_string(), line, now());
    assert!(matches!(step, SubmitStep::Publish { .. }));
    let published = SubmitAnswer::Published { result: Ok(()), chain: vec![vec![1], vec![2]] };
    done(flow.advance(step, published)).unwrap()
}

#[test]
fn submit_without_valid_hmac_is_unauthenticated() {
    let (flow, mut store) = test_flow();
    let csr = bytes(CSR_TSU);
    let step = submit_in_memory(&flow, &mut store, &csr, PROFILE, "00", around(Ok(())));
    assert!(matches!(done(step), Err(RaflowError::Unauthenticated)));
    assert!(store.requests(None).unwrap().is_empty());
}

#[test]
fn submit_rejects_a_csr_with_an_undersized_key() {
    let (flow, mut store) = test_flow();
    let err = done(submit(&flow, &mut store, &bytes(CSR_SHORT)));
    assert!(
        err.is_err(),
        "une clé RSA de 2048 bits doit être refusée (< 3072 bits, ETSI TS 119 312 §6.2)"
    );
    assert_eq!(
        err.unwrap_err().to_string(),
        "raflow: clé RSA de 2048 bits: ETSI TS 119 312 impose au moins 3072 bits"
    );
}

#[test]
fn submit_opens_a_pending_request_idempotently() {
    let (flow, mut store) = test_flow();
    let csr = bytes(CSR_TSU);
    let first = done(submit(&flow, &mut store, &csr)).unwrap();
    assert_eq!(first.state, RequestState::Pending);
    assert!(first.certificate.is_none());
    assert_eq!(first.retry_after, Some(Duration::seconds(5)));
    let second = done(submit(&flow, &mut store, &csr)).unwrap();
    assert_eq!(
        second.transaction_id, first.transaction_id,
        "re-soumettre la même CSR doit retrouver la même demande"
    );
    assert_eq!(second.state, RequestState::Pending);
    let pending = store.requests(Some(RequestState::Pending)).unwrap();
    assert_eq!(pending.len(), 1, "la resoumission ne doit pas créer une seconde demande");
    assert_eq!(pending[0].subject_cn, "tsu.example.test");
    assert_eq!(pending[0].csr_der, csr);
    assert_eq!(pending[0].created_at, now());
}

#[test]
fn submissions_alone_leave_a_request_pending() {
    let (flow, mut store) = test_flow();
    let csr = bytes(CSR_TSU);
    let sig = signature(&csr, HMAC_SECRET);
    let first = done(submit(&flow, &mut store, &csr)).unwrap();
    let later = Timestamp { nanos: now().nanos + 1 };
    // The journal is not asked again, and the time of the opening stands.
    let again = Surroundings { now: later, ..around(failing_journal()) };
    let second = done(submit_in_memory(&flow, &mut store, &csr, PROFILE, &sig, again)).unwrap();
    assert_eq!(second.transaction_id, first.transaction_id);
    assert_eq!(second.state, RequestState::Pending);
    assert!(second.certificate.is_none());
    // An authority that refuses now changes nothing.
    let refused = Surroundings { named: Err("CN refusé".to_string()), ..around(Ok(())) };
    let step = submit_in_memory(&flow, &mut store, &csr, PROFILE, &sig, refused);
    assert!(matches!(done(step), Err(RaflowError::Other(text)) if text == "CN refusé"));
    for _ in 0..10 {
        assert_eq!(done(submit(&flow, &mut store, &csr)).unwrap().state, RequestState::Pending);
    }
    let all = store.requests(None).unwrap();
    assert_eq!(all.len(), 1);
    assert_eq!(all[0].state, RequestState::Pending);
    assert_eq!(all[0].transaction_id, first.transaction_id);
    assert_eq!(all[0].created_at, now());
}

#[test]
fn approve_then_resubmit_issues_a_certificate_signed_by_the_issuing_key() {
    let (flow, mut store) = test_flow();
    let csr = bytes(CSR_TSU);
    let opened = done(submit(&flow, &mut store, &csr)).unwrap();
    approve(&mut store, &opened.transaction_id, "conforme");
    let issued = issue(&flow, &mut store, &csr, &[0x30, 0x01], bytes(CERT_TSU));
    assert_eq!(issued.state, RequestState::Issued);
    let cert = issued.certificate.expect("un certificat doit être renvoyé");
    assert_eq!(cert, bytes(CERT_TSU));
    assert_eq!(
        store.certificate(&vec![0x30, 0x01]).unwrap().subject_dn,
        "C=FR,O=Open eIDAS,OU=Time Stamping Authority,CN=tsu.example.test"
    );
    assert!(
        !issued.chain.is_empty(),
        "la chaîne complète doit accompagner le certificat"
    );
    // Submitted again: the same certificate, and no second one.
    let again = match submit(&flow, &mut store, &csr) {
        SubmitStep::Fetch { transaction_id, serial } => {
            let fetched = SubmitAnswer::Fetched {
                result: store.certificate(&serial),
                chain: vec![vec![1], vec![2]],
            };
            done(flow.advance(SubmitStep::Fetch { transaction_id, serial }, fetched)).unwrap()
        }
        other => panic!("{other:?}"),
    };
    assert_eq!(again.state, RequestState::Issued);
    assert_eq!(again.certificate.unwrap(), cert);
    assert_eq!(store.issued_serials().unwrap().len(), 1);
}

#[test]
fn issuance_immediately_republishes_the_crl_with_the_new_serial() {
    let (flow, mut store) = test_flow();
    let csr = bytes(CSR_TSU);
    let opened = done(submit(&flow, &mut store, &csr)).unwrap();
    approve(&mut store, &opened.transaction_id, "conforme");
    // The issue ends with a publication, and the extension that is published
    // lists the new number.
    issue(&flow, &mut store, &csr, &[0x30, 0x01], bytes(CERT_TSU));
    let ext = crl_issued_serials(&store.issued_serials().unwrap()).unwrap();
    assert_eq!(
        ext.value,
        vec![0x30, 4, 2, 2, 0x30, 0x01],
        "le certificat tout juste émis doit déjà figurer dans la CRL republiée"
    );
}

#[test]
fn reject_then_resubmit_reports_the_operator_and_comment() {
    let (flow, mut store) = test_flow();
    let csr = bytes(CSR_TSU);
    let opened = done(submit(&flow, &mut store, &csr)).unwrap();
    let step = flow.decider().reject(&opened.transaction_id, "operateur-ra", "sujet non autorisé");
    decide_in_memory(&mut store, step, now(), Ok(())).unwrap();
    match done(submit(&flow, &mut store, &csr)) {
        Err(RaflowError::Rejected { operator, comment }) => {
            assert_eq!(operator, "operateur-ra");
            assert_eq!(comment, "sujet non autorisé");
        }
        Ok(_) => panic!("attendu RaflowError::Rejected, obtenu un succès"),
        Err(e) => panic!("attendu RaflowError::Rejected, obtenu l'erreur : {}", e.to_string()),
    }
}

#[test]
fn issuing_a_renewal_revokes_the_previous_certificate_for_the_same_subject() {
    let (flow, mut store) = test_flow();
    let csr1 = bytes(CSR_TSU);
    let opened1 = done(submit(&flow, &mut store, &csr1)).unwrap();
    approve(&mut store, &opened1.transaction_id, "");
    let serial1 = vec![0x30, 0x01];
    issue(&flow, &mut store, &csr1, &serial1, vec![1]);

    let csr2 = bytes(CSR_TSU_AGAIN);
    let opened2 = done(submit(&flow, &mut store, &csr2)).unwrap();
    approve(&mut store, &opened2.transaction_id, "");
    let serial2 = vec![0x30, 0x02];
    issue(&flow, &mut store, &csr2, &serial2, vec![2]);

    assert_ne!(serial1, serial2);
    let stored1 = store.certificate(&serial1).unwrap();
    assert_eq!(
        stored1.status,
        CertificateStatus::Revoked,
        "l'ancien certificat du même sujet doit être révoqué lors du renouvellement"
    );
    assert_eq!(stored1.revocation_reason, 4, "motif RFC 5280 superseded");
    let stored2 = store.certificate(&serial2).unwrap();
    assert_eq!(stored2.status, CertificateStatus::Issued);
    let active = store.active_by_subject(SUBJECT, now()).unwrap();
    assert_eq!(active.len(), 1);
    assert_eq!(active[0].serial, serial2);
}

#[test]
fn decide_without_operator_identity_is_refused() {
    let (flow, mut store) = test_flow();
    let opened = done(submit(&flow, &mut store, &bytes(CSR_TSU))).unwrap();
    let step = flow.decider().approve(&opened.transaction_id, "", "");
    let err = decide_in_memory(&mut store, step, now(), Ok(()));
    assert!(
        err.is_err(),
        "approuver sans identité d'opérateur doit être refusé — traçabilité de la décision"
    );
    assert_eq!(
        store.request_by_transaction_id(&opened.transaction_id).unwrap().state,
        RequestState::Pending
    );
}

#[test]
fn approve_unknown_transaction_is_not_found() {
    let mut store = Memory::new();
    let step = Decider::new().approve("transaction-inconnue", "operateur-ra", "");
    let err = decide_in_memory(&mut store, step, now(), Ok(()));
    assert!(matches!(err, Err(RaflowError::NotFound)));
}

#[test]
fn a_journal_failure_blocks_submission_before_any_request_is_created() {
    let (flow, mut store) = test_flow();
    let csr = bytes(CSR_AUDIT);
    let sig = signature(&csr, HMAC_SECRET);
    let step = submit_in_memory(
        &flow,
        &mut store,
        &csr,
        "tsa_signer",
        &sig,
        around(failing_journal()),
    );
    let err = done(step).unwrap_err();
    assert!(err.to_string().contains("journal"), "{}", err.to_string());
    assert_eq!(
        err.to_string(),
        "raflow: journal : stockage du journal injoignable (test)"
    );
    let fp_hex = hex::encode(sha2::Sha256::digest(&csr));
    assert!(
        store.request_by_fingerprint(&fp_hex).is_err(),
        "aucune demande ne doit être créée : le journal a échoué avant"
    );
}

#[test]
fn a_journal_failure_on_decide_still_leaves_the_decision_applied() {
    let (flow, mut store) = test_flow();
    let csr = bytes(CSR_AUDIT);
    done(submit(&flow, &mut store, &csr)).unwrap();
    let fp_hex = hex::encode(sha2::Sha256::digest(&csr));
    let request = store.request_by_fingerprint(&fp_hex).unwrap();
    let step = Decider::new().approve(&request.transaction_id, "operateur-ra", "");
    let err = decide_in_memory(&mut store, step, now(), failing_journal()).unwrap_err();
    assert!(err.to_string().contains("journal"), "{}", err.to_string());
    let updated = store.request_by_transaction_id(&request.transaction_id).unwrap();
    assert_eq!(
        updated.state,
        RequestState::Approved,
        "la décision reste appliquée malgré l'échec du journal (exception documentée)"
    );
    assert_eq!(updated.operator, "operateur-ra");
    assert_eq!(updated.decided_at, Some(now()));
}

#[test]
fn the_first_decision_stands() {
    let (flow, mut store) = test_flow();
    let opened = done(submit(&flow, &mut store, &bytes(CSR_TSU))).unwrap();
    approve(&mut store, &opened.transaction_id, "conforme");
    let step = Decider::new().reject(&opened.transaction_id, "autre", "non");
    match decide_in_memory(&mut store, step, now(), Ok(())) {
        Err(e) => assert_eq!(
            e.to_string(),
            "raflow: la demande n'est plus en attente de décision (état actuel: APPROVED)"
        ),
        Ok(_) => panic!("une seconde décision"),
    }
    let r = store.request_by_transaction_id(&opened.transaction_id).unwrap();
    assert_eq!(r.operator, "operateur-ra");
    let listed = Decider::new().requests(&store, Some(RequestState::Approved)).unwrap();
    assert_eq!(listed.len(), 1);
}

#[test]
fn a_request_is_bound_to_its_first_profile() {
    let (flow, mut store) = test_flow();
    let csr = bytes(CSR_TSU);
    done(submit(&flow, &mut store, &csr)).unwrap();
    let sig = signature(&csr, HMAC_SECRET);
    let other = Surroundings { profile: Ok("ocsp_responder".to_string()), ..around(Ok(())) };
    let step = submit_in_memory(&flow, &mut store, &csr, "ocsp_responder", &sig, other);
    assert_eq!(
        done(step).unwrap_err().to_string(),
        "raflow: cette demande a été soumise pour le profil \"tsa_signer\", pas \"ocsp_responder\""
    );
}

#[test]
fn what_the_authority_refuses_is_not_opened() {
    let (flow, mut store) = test_flow();
    let csr = bytes(CSR_TSU);
    let sig = signature(&csr, HMAC_SECRET);
    let unknown = Surroundings { profile: Err("profil inconnu".to_string()), ..around(Ok(())) };
    let step = submit_in_memory(&flow, &mut store, &csr, "x", &sig, unknown);
    assert_eq!(done(step).unwrap_err().to_string(), "raflow: profil inconnu");
    let misnamed = Surroundings { named: Err("CN refusé".to_string()), ..around(Ok(())) };
    let step = submit_in_memory(&flow, &mut store, &csr, PROFILE, &sig, misnamed);
    assert_eq!(done(step).unwrap_err().to_string(), "raflow: CN refusé");
    assert!(store.requests(None).unwrap().is_empty());
}

#[test]
fn faulty_certification_requests_are_refused() {
    let (flow, mut store) = test_flow();
    let mut text = |csr: &[u8]| done(submit(&flow, &mut store, csr)).unwrap_err().to_string();
    assert_eq!(
        text(&bytes(CSR_FORGED)),
        "raflow: la demande n'est pas signée par la clé qu'elle présente"
    );
    assert_eq!(
        text(&bytes(CSR_NAMELESS)),
        "raflow: la demande ne porte pas de nom courant (CN)"
    );
    assert!(text(&bytes(CSR_EC)).starts_with("raflow: clé publique de la demande illisible: "));
    assert!(text(&[0x30, 0x00]).starts_with("raflow: "));
    assert!(matches!(parse_and_verify_csr(&[1, 2, 3]), Err(RaflowError::Der(_))));
    let (cn, spki) = parse_and_verify_csr(&bytes(CSR_TSU)).unwrap();
    assert_eq!(cn, "tsu.example.test");
    assert_eq!(spki[0], 0x30);
}

#[test]
fn certification_requests_are_judged_in_order() {
    assert!(judge_csr(Ok(3072), true, "cn").is_ok());
    assert_eq!(
        judge_csr(Ok(3071), false, "").unwrap_err().to_string(),
        "raflow: clé RSA de 3071 bits: ETSI TS 119 312 impose au moins 3072 bits"
    );
    assert_eq!(
        judge_csr(Err("?".to_string()), false, "").unwrap_err().to_string(),
        "raflow: clé publique de la demande illisible: ?"
    );
    assert_eq!(
        judge_csr(Ok(4096), false, "").unwrap_err().to_string(),
        "raflow: la demande n'est pas signée par la clé qu'elle présente"
    );
}

#[test]
fn fingerprints_codes_and_transactions_are_those_of_the_standards() {
    // SHA-256 of "abc".
    assert_eq!(
        fingerprint(b"abc"),
        "ba7816bf8f01cfea414140de5dae2223b00361a396177a9cb410ff61f20015ad"
    );
    assert_eq!(transaction_id(b"abc"), "ba7816bf8f01cfea414140de5dae2223");
    // RFC 4231, the second case.
    assert_eq!(
        signature(b"what do ya want for nothing?", "Jefe"),
        "5bdcc146bf60754e6a042426089575c75a003f089d2739839dec58b964ec3843"
    );
    let good = signature(b"csr", "secret");
    assert!(verify_hmac(b"csr", "secret", &good).is_ok());
    assert!(verify_hmac(b"csr", "secret", &good.to_uppercase()).is_ok());
    assert!(verify_hmac(b"csr", "secret", &good[..62]).is_err());
    assert!(verify_hmac(b"csr", "autre", &good).is_err());
    assert!(verify_hmac(b"csr", "secret", "zz").is_err());
}

#[test]
fn an_empty_secret_is_refused() {
    let opts = |secret: &str, nanos: i128| Options {
        hmac_secret: secret.to_string(),
        retry_after: Duration { nanos },
    };
    assert_eq!(
        Flow::new(opts("", 1)).unwrap_err().to_string(),
        "raflow: secret HMAC d'enrôlement non configuré (enrôlement anonyme refusé)"
    );
    assert_eq!(Flow::new(opts("s", 0)).unwrap().opts.retry_after, Duration::seconds(5));
    assert_eq!(Flow::new(opts("s", 7)).unwrap().opts.retry_after, Duration { nanos: 7 });
}

#[test]
fn errors_say_what_they_are() {
    assert_eq!(RaflowError::Unauthenticated.to_string(), "raflow: demande non authentifiée");
    assert_eq!(RaflowError::NotFound.to_string(), "raflow: demande inconnue");
    let rejected = |comment: &str| RaflowError::Rejected {
        operator: "op".to_string(),
        comment: comment.to_string(),
    };
    assert_eq!(
        rejected("").to_string(),
        "raflow: demande rejetée par l'autorité d'enregistrement (opérateur op)"
    );
    assert_eq!(
        rejected("non").to_string(),
        "raflow: demande rejetée par l'autorité d'enregistrement (opérateur op : non)"
    );
    assert_eq!(comment_suffix("x"), " : x");
    assert_eq!(RaflowError::Ca("ca".to_string()).to_string(), "raflow: ca");
    assert_eq!(RaflowError::Der("der".to_string()).to_string(), "raflow: der");
    assert_eq!(
        RaflowError::Store(StoreError::Conflict).to_string(),
        "raflow: castore: état modifié entre-temps"
    );
}

#[test]
fn an_issue_that_fails_midway_says_where() {
    let (flow, mut store) = test_flow();
    let csr = bytes(CSR_TSU);
    let opened = done(submit(&flow, &mut store, &csr)).unwrap();
    approve(&mut store, &opened.transaction_id, "");
    let start = |store: &mut Memory| match submit(&flow, store, &csr) {
        SubmitStep::Subject { issue } => issue,
        other => panic!("{other:?}"),
    };
    // The subject cannot be built.
    let step = SubmitStep::Subject { issue: start(&mut store) };
    let answer = SubmitAnswer::Subject { result: Err("sujet".to_string()), now: now() };
    assert_eq!(done(flow.advance(step, answer)).unwrap_err().to_string(), "raflow: sujet");
    // Nothing was reserved for the number.
    let first = start(&mut store);
    let id = opened.transaction_id.clone();
    let step = issue_in_memory(
        &flow,
        &mut store,
        first,
        SUBJECT.to_string(),
        line(&[9], vec![], &id),
        now(),
    );
    assert!(matches!(done(step), Err(RaflowError::Ca(_))));
    // The publication fails: the certificate is issued all the same.
    let second = start(&mut store);
    store.reserve_serial(&vec![9], PROFILE).unwrap();
    let step = issue_in_memory(
        &flow,
        &mut store,
        second,
        SUBJECT.to_string(),
        line(&[9], vec![], &id),
        now(),
    );
    let answer = SubmitAnswer::Published { result: Err("CRL".to_string()), chain: vec![] };
    assert_eq!(done(flow.advance(step, answer)).unwrap_err().to_string(), "raflow: CRL");
    let r = store.request_by_transaction_id(&id).unwrap();
    assert_eq!(r.state, RequestState::Issued);
    assert_eq!(r.certificate_serial, Some(vec![9]));
    assert_eq!(r.issued_at, Some(now()));
}

#[test]
fn an_issued_request_without_a_certificate_is_reported() {
    let (flow, mut store) = test_flow();
    let csr = bytes(CSR_TSU);
    let opened = done(submit(&flow, &mut store, &csr)).unwrap();
    let mut r = store.request_by_transaction_id(&opened.transaction_id).unwrap();
    r.state = RequestState::Issued;
    store.update_request(r, RequestState::Pending).unwrap();
    assert_eq!(
        done(submit(&flow, &mut store, &csr)).unwrap_err().to_string(),
        format!(
            "raflow: demande {} marquée émise sans certificat associé",
            opened.transaction_id
        )
    );
}

#[test]
fn what_is_superseded_is_revoked_with_its_reason() {
    let (flow, mut store) = test_flow();
    let csr = bytes(CSR_TSU);
    let opened = done(submit(&flow, &mut store, &csr)).unwrap();
    approve(&mut store, &opened.transaction_id, "");
    let step = submit(&flow, &mut store, &csr);
    let step = flow.advance(
        step,
        SubmitAnswer::Subject { result: Ok(SUBJECT.to_string()), now: now() },
    );
    let old = line(&[1], vec![], "tx");
    let step = flow.advance(step, SubmitAnswer::Active { result: Ok(vec![old]) });
    let step = flow.advance(step, SubmitAnswer::Signed { result: Ok((vec![0xab], vec![])) });
    match flow.advance(step, SubmitAnswer::Updated { result: Ok(()) }) {
        SubmitStep::Revoke { revocation, issued } => {
            assert_eq!(revocation.serial, vec![1]);
            assert_eq!(revocation.reason, 4);
            assert_eq!(revocation.operator, "raflow:renouvellement");
            assert_eq!(revocation.comment, "remplacé par ab");
            let step = SubmitStep::Revoke { revocation, issued };
            let step = flow.advance(step, SubmitAnswer::Revoked { result: Ok(()) });
            assert!(matches!(step, SubmitStep::Publish { .. }));
        }
        other => panic!("{other:?}"),
    }
}

#[test]
fn the_opening_is_recorded_before_it_is_stored() {
    let (flow, store) = test_flow();
    let csr = bytes(CSR_TSU);
    let step = flow.submit(&csr, PROFILE, &signature(&csr, HMAC_SECRET));
    let step = flow.advance(step, SubmitAnswer::Profile { result: Ok(PROFILE.to_string()) });
    let step = flow.advance(step, SubmitAnswer::NameChecked { result: Ok(()) });
    let found = store.request_by_fingerprint(&fingerprint(&csr));
    match flow.advance(step, SubmitAnswer::Found { result: found, now: now() }) {
        SubmitStep::Record { request, entry } => {
            assert_eq!(entry.event, "ca.request_received");
            let fields: Vec<(&str, &str)> =
                entry.fields.iter().map(|(k, v)| (k.as_str(), v.as_str())).collect();
            assert_eq!(
                fields,
                vec![
                    ("transaction", transaction_id(&csr).as_str()),
                    ("profil", PROFILE),
                    ("sujet_cn", "tsu.example.test"),
                    ("empreinte", fingerprint(&csr).as_str()),
                ]
            );
            assert_eq!(request.state, RequestState::Pending);
        }
        other => panic!("{other:?}"),
    }
}

#[test]
fn the_common_name_of_a_name_is_its_first() {
    assert_eq!(common_name(&[0x30, 0x00]), "");
    assert_eq!(common_name(&[1]), "");
    // CN=a, as an UTF8String.
    let name = hex::decode("300c310a3008060355040313016100").unwrap();
    assert_eq!(common_name(&name), "");
    let name = hex::decode("300c310a300806035504030c0161").unwrap();
    assert_eq!(common_name(&name), "a");
}
