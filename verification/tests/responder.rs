//! The responder, against lists and requests that other tools produced, and
//! answers that other tools accept.
use open_eidas::calendar::encode_time;
use open_eidas::clock::Timestamp;
use open_eidas::extensions::crl_issued_serials;
use open_eidas::ocsp::{
    compute_issuer_hashes, crl_url, issuer_common_name, read_snapshot, Fetched, Moment, OcspError,
    Options, Responder, Step, ON_DEMAND_REFRESH_COOLDOWN,
};
use open_eidas::ocsp_request::read_ids_asked;
use open_eidas::ocsp_response::{
    encode_response_data, error_response, CertStatus, OcspResponseStatus, Update,
};
use open_eidas::x509::{Certificate, Extension, RevokedEntry};
use sha2::Digest;

const ISSUER: &str = "\
308204233082028ba003020102020101300d06092a864886f70d01010b05003041310b30090603550406\
1302465231183016060355040a0c0f4f70656e20654944415320546573743118301606035504030c0f54\
6573742049737375696e67204341301e170d3236303130313030303030305a170d333630313031303030\
3030305a3041310b300906035504061302465231183016060355040a0c0f4f70656e2065494441532054\
6573743118301606035504030c0f546573742049737375696e67204341308201a2300d06092a864886f7\
0d01010105000382018f003082018a0282018100c7a6bc557306a0a3b04b00df3fbf8427029d5d7c912b\
32cde9097bb4bcc39736394e3c805d11d494483afa8bd02a33bc1f6f6c5a31080aca66fd71edc79e15d2\
2562c281f529902f3b70137ef31ee0bf8294882df97d207c1860c314c314b690211eeeaacd50196a98bf\
76d0c496a803d69840915f1f95a2e7a9386e2829fd3eb56d145582a31bdea0fdc46d19e731987fe411e9\
203cdf6c9a50727dda67ebd3b4d769ff71fa7a7b4632153e06426e28aa95c658f14836793427edaae78d\
340278b6281441e1eb655a059a630a176b731a0d62c72fb9402c00c42b7942b1006eddfb6f30cb8b3db4\
1d8390a018cd11c76d652d7c92fd3e4f9f061f26964d822c8a3d57a094f16c5b32f26fad966687083473\
cdae72c2fc6d1f0b588eeef131a0c06a1f06c995feb1bb22aaa2a90fd905900528683e5f9efbee06dd0e\
de19521eee574b0d96ed417c8f6da102d1a9b4dde36c0c905062da079d8069d535c933bca4521657d250\
9de80bca7b6b6021a6d16ccae35379ac719dee1946d0d497e08f0203010001a326302430120603551d13\
0101ff040830060101ff020100300e0603551d0f0101ff040403020106300d06092a864886f70d01010b\
05000382018100468c77e84d2f187fef82aa463f84efdea09231178a1c4be6cbbea1eedef78ae5b70a38\
c6353b89158d5f792dd1fa44bad054cc8bb3ec8cf87b17d45a03f2b8bace78b8bb1e45b5f37f582022b6\
73a3b4ae7369d16171abdcaa59705873effd3e40522cc37b12f92cd42e9a542380dfba9bf07c61de9c5c\
2752776e67aba3f09ac22bd316f4d8cd386552cc047c2ee1d7bc1916df887ffff0b06790957134d70975\
a4a9504cb14599d6db417dd8917940ea5b3bba770141c01ddf82c5286a5685ccba92533c9cabdd93178f\
4a2abc1bf3c5d2889c1a3a9be320846a9962129557a852615515d6f72306e8e528065e8c97950b6a9fc0\
b194ba4a689bcc5fd48d21e4cc119e8eee5d5cf32510cbcdb434ac1870a50209c8ca74dd16ce37f29d11\
e88e00fec67090418b8ec84ab5a942516cd69d7b923afb164d7cf181bcbde883644491d06d15f05362a2\
78dd3c8d1d6976a71d249b8bc9d41c371d778e4dadde4bb62c62510615a3ae549188249ec15e159f7fc7\
c69f3f41fde0e898d790a7993d";

const RESPONDER: &str = "\
3082042930820291a00302010202022000300d06092a864886f70d01010b05003041310b300906035504\
061302465231183016060355040a0c0f4f70656e20654944415320546573743118301606035504030c0f\
546573742049737375696e67204341301e170d3236303130313030303030305a170d3236313230313030\
303030305a30263124302206035504030c1b4f70656e206549444153204f43535020526573706f6e6465\
722031308201a2300d06092a864886f70d01010105000382018f003082018a0282018100ab746ac189a4\
7a3050ef363709a2e0278617eed8658ac7506c67a534c45a42f7cff979cab050ba70ca351a6c758b5ce6\
099e3047c1e8b29febd012312ce4d8cbcac9ede57fd2195a8f191bb1225d6e12f58afcf16113db8b14a7\
6883499fd4d36061867cbcae2c50e6c722cdd60585648f3fac2dd7bc330036b9962c7bef105923a1e2ef\
a2a4c99dbb7769746940ef86328593d64be71965f9e63a2f596f4b4c3f34caccc7d8642db55f4353b748\
0186c37be8656af988c056aba72740dda06e764219c09215f6dc5b03648d434124e654895bc6111fbdc6\
ff0fb5d6701f13301fc5d12d1640bab0886c8d252a80cfb9622b5e5e7e88ac869d2b452ee723e3ec524a\
2b78afde6bcdf6361c6134d3bb3e05cf55b4427b983cb0e73a392b855a8f0303130da55abe2af108f6de\
e495b8d8eb865fb7eab5394324aed758faa71e017c6fb64add71eb006c156c5d8ebeb6370285d99fce6a\
dbee8ea7150ea8dd5ec43a0a525bc9096bbdc9cfecad621c4281f42c0f82ca53d3ddc042d2fd0e2e3463\
0203010001a3463044300c0603551d130101ff04023000300e0603551d0f0101ff040403020780301306\
03551d25040c300a06082b06010505070309300f06092b060105050730010504020500300d06092a8648\
86f70d01010b050003820181005727c79af1391333fd3f9b8eab40c15dc697c890b87fecb5fabf97ba5d\
6eb1d68ba632f04a624a40ed94348db016b8deca6bcd778a1ed2fcf3fb5c3435a84f7f2b909e2d1526a3\
efb9a58000b611ad3b3812164c5d4c38a36fcb02aff4fa83ab0345556c3305533485de6f900988ccac4a\
1c686fc764d14a00483cee10c9bd8795a4e189959105538f070a14a5f7a3811c28d8646e4e79341bd348\
e100f63ae1ffb4d20b78ae31479f3f28efd345984e3cd1867011c50558a7a3a39480b58ce3d54330f737\
ba104c4888cf79aba278e8cbe9c6d845219a0d6dfe4b9b287b745a0e9c08223116a099570bdb3c1f3e57\
f5ec65ec92afb8d825a396c7ee87dd48d20ab67336498453fff5b293fc8fca683bf2a7a7771ad8ca8f63\
10918c14f28a81980c3abc604ef583bb3ee5f5694b99db88b12d2a1113533d13717ce1427fcee2d294ad\
9b4b8372d08bea7f37401623421a04d9147a37355211f0ce3684a2d8433bcfeaa679ad2776244addb1dd\
ac89d5154e1c3113c0cdc6dbe0a7d46ce9eb7e";

const CRL: &str = "\
308202583081c1020101300d06092a864886f70d01010b05003041310b30090603550406130246523118\
3016060355040a0c0f4f70656e20654944415320546573743118301606035504030c0f54657374204973\
7375696e67204341170d3236313130313132303030305a170d3236313130383132303030305a30233021\
02021000170d3236313033303038313533305a300c300a0603551d1504030a0101a0273025300b060355\
1d14040402021000301606082b06010401000103040a30080202100002021001300d06092a864886f70d\
01010b0500038201810005ac383c96d7a7c5c11729eedb9ccf41ab6841fb4ef2b09ad2f76fd19aace260\
610985ee5220c15ba4a3cba61fa0acde465dca13d908d30e68fd9b0b7274e43421e8c3be89a8f33022ab\
7f000089ed8109bc0ed08fcbffe399cd17351400b52fc9e552293f86378145030994b736ba20750df182\
52c419cf3781c9bec37fb7f54e4d8363f0a4b2925b1fb9fb22672f97d15f903f94b001042f118caeb956\
af3e25de7548d1ce654dead83a798234cb5fa0410a076f87da89a91485cfba11bdd5ae1c555c877527f9\
c1f4037c7322ed87bc1637345c9fdd1c23bcf5f79f725b64ce5a6519aeb00a2b25f7122ca1951acb70a6\
bdfea08d715b5b863dcd02369eba5e71402bfd57af5a5313dd02645d0d497df1e91baaca15887f209d51\
b2b6016de47a74abec83dd2bacaeb5b993a4ec9a7b5b3e2bce07f520e42080e212acd0b2109ba25d8fc6\
c3861e183be6f910b8427e05598535678576d447aef3b98a829a697c783f0af6359365fcb62d3e7a774f\
3a985c5264598a23b9d57f51f995b9c7";

const CRL_STALE: &str = "\
308202543081bd020101300d06092a864886f70d01010b05003041310b30090603550406130246523118\
3016060355040a0c0f4f70656e20654944415320546573743118301606035504030c0f54657374204973\
7375696e67204341170d3236313130313132303030305a170d3236313130383132303030305a30233021\
02021000170d3236313033303038313533305a300c300a0603551d1504030a0101a0233021300b060355\
1d14040402020fff301206082b060104010001030406300402021000300d06092a864886f70d01010b05\
000382018100809fbd996e75e64d7d2643b5cbe9c58f82686dc39931a13f6b37c8a1afc025499fdcf461\
05ed1c3d4a22f94112d043a46835ceff0972274ba166e69f6c115830a66be6b0c647099ad20cc61576d9\
fd5f56f726a820876b44561f562f2b20a75ddc09224de992b2399d6c835281c2fb1b8ecb7d19d05f1bcc\
d453e0690ea3264f2541841dd46a5924fc32baee150b0e823350d3ab3e8a93155a90668c13a09f248d2a\
e585135034c0f4f60e0f0911e3a7c4fca04f486c4a1f647cb27f66d6b7742be8e76febbf80e15610a275\
800b4f0c6dfd46b4ac90fda8cf44b32edba8898d25a9d737ac08251e618cada9bdd45a6eea73429cd5f4\
d46520adc5757889589307dc322bc809e9ab195644d391377d12ed1e418b961c1f833d376424afbc034a\
0cf311670924413590ad2c1121ef617955d850a6ecff622a8bf647d4f4d243ac4b2c49d3d99455ea9db4\
a96073608d0fd7c871abae9cb4ffd5a139139015e0c0650ddc34f61fa46312d6433a2e576583389cb2d6\
f468d5cd1005c2462ec8a6a1";

const CRL_PLAIN: &str = "\
308202403081a9020101300d06092a864886f70d01010b05003041310b30090603550406130246523118\
3016060355040a0c0f4f70656e20654944415320546573743118301606035504030c0f54657374204973\
7375696e67204341170d3236313130313132303030305a170d3236313130383132303030305a30233021\
02021000170d3236313033303038313533305a300c300a0603551d1504030a0101a00f300d300b060355\
1d14040402021000300d06092a864886f70d01010b05000382018100627da5242a19448766642bcd9e70\
361c9048fb4fd7487a213ec5b5a498fe61a03d722d20c1308ef536cb678e93df7ea9ac6a771bd444f6db\
da974adee8e9e70b59acb7021350a662c5f750eb46b4661a8515871012f25b7ab79f709994ccbdf3ab30\
27c582cbc618b257fa9166b9f24068f45d2fea2c103100b5fa45ed2d7171f5ae1f19ba75dddf36b73b8f\
0fee74cfd762396cd8e734bb917ab0c03edb5bd5a05f915d10a0fefb403db102093bc0655254d72f4ad1\
5adf3432a89ad79935b387fba430ca8a8ee8b4aab2f0d080b667e5566b8ed2048c14fb069cf1e754ad7d\
2633f3d0c7b129ecfc054416b4954cfc97638cefabd2ecda918b12c2d12c2dbf79dd48f0f56014555839\
9f8b93115dcbfe6a0d0373e7a4f1282352954f9addbb8152d838fd5b3a6e11303821129692bdbe69dad6\
3f1d15011a213fad65a955630353f64f93b7ff43b0209e0f1fb46cb0d538ace0e7b8de77704d1b22e8c4\
1e09b38f594bf8669246f6825c05779a6030e31884f640798af6f314317537d334b8";

const CRL_FORGED: &str = "\
308201d83081c1020101300d06092a864886f70d01010b05003041310b30090603550406130246523118\
3016060355040a0c0f4f70656e20654944415320546573743118301606035504030c0f54657374204973\
7375696e67204341170d3236313130313132303030305a170d3236313130383132303030305a30233021\
02021000170d3236313033303038313533305a300c300a0603551d1504030a0101a0273025300b060355\
1d14040402021000301606082b06010401000103040a30080202100002021001300d06092a864886f70d\
01010b050003820101002540a426e72a1e0edb5b5b35ce13d579336ea6e01f33ef510ee153cdb2cf136c\
1e818db2460a2fa55578953585dfec2b9b46955a585d8c7a24b67dd457700ae55a425cf46c54373d2b88\
0057b31b482aa0d33fa8bd78a39d2e1c693b8ff0f5ad6691cc40f8d53a81dbcdd24f623018e518efd88e\
c1f8382be67cc689da5486b2a311ff94e6c86ed92a2d92296b14cc7ee3a4b83d8ab6d4e92fc95d8a3e31\
af7971f0d753ed0b7e090f9970d2240e9ea8a1de40ff26558d49ba157cb3d1a1a74655cd43974aa1911b\
526945d87516912be04bf2eb8f65966d9ae5eeacafe38b9b9377f939322529c47bfa5aa09d69d2251a45\
ed4605d61d8caaed45e1cd055f61";

const CRL_BROKEN: &str = "\
308202503081b9020101300d06092a864886f70d01010b05003041310b30090603550406130246523118\
3016060355040a0c0f4f70656e20654944415320546573743118301606035504030c0f54657374204973\
7375696e67204341170d3236313130313132303030305a170d3236313130383132303030305a30233021\
02021000170d3236313033303038313533305a300c300a0603551d1504030a0101a01f301d300b060355\
1d14040402021000300e06082b0601040100010304020500300d06092a864886f70d01010b0500038201\
81007696ed9077b669eecb1f661d4d50d7b9883da7acc323873849c22ce1fb78a6252e500bea29a95298\
225232ad11696f83749786b04698d1e8606604765c6abe0ee17e34e5900cae640214cd7abc2a4b06c1ee\
20be0eb9d9f7aa3b742d8d44037dd4b7225bbde2903b14d32fe66591104bc8f0bfa852fc1567279df61f\
9e80818677bb52183c892caf04e2c693e3c64ad725cfff899d91f798084ee6504057b06180bba75b59e1\
d89a6d237b86e6041906e3da47684f04bff1a6b5750433f8b345021e930748ed357c4b896d0f74f66473\
dce12d2a7717916d6a8bcfd4edc9649a4fba074b56cc6433beb2e5536fe7d3ace006f98cff02522164b2\
9524f24432e3b92df1ddf280df22334e5b1cdafdae1269777b4bd05888aa6f2cca31dae3ed598e98b821\
e0685439af257cee3c41a2dffc4e0fa79cfc10a3410f7f519564ac88a5aed9299e4af20d345679a3f582\
69216cc2aee5796296ee94f201a6b8364691f83f3ca58b6e45fa3d7d7f84deb3c8cba245844f0a4d076d\
5cbca0aaf4021e84";

const REQUEST_GOOD: &str = "\
30433041303f303d303b300906052b0e03021a05000414fb6196545c5b35a8911845fe023008cd8ab46c\
750414d53734736e3402f4191ffe657bfa149f9968313102021001";

const REQUEST_REVOKED: &str = "\
30433041303f303d303b300906052b0e03021a05000414fb6196545c5b35a8911845fe023008cd8ab46c\
750414d53734736e3402f4191ffe657bfa149f9968313102021000";

const REQUEST_UNKNOWN: &str = "\
304430423040303e303c300906052b0e03021a05000414fb6196545c5b35a8911845fe023008cd8ab46c\
750414d53734736e3402f4191ffe657bfa149f996831310203009999";

const REQUEST_SHA256: &str = "\
305f305d305b30593057300d0609608648016503040201050004202c18657013d96d6284c96435e08f2c\
de2f4b8c62fc63d3bbd64b43030a42a3e8042066a9cd99a6abd98de65863f43650690d23d416b0821059\
4fec43f14dc8e0d5f502021001";

const REQUEST_SHA512: &str = "\
3081a33081a030819d30819a308197300d060960864801650304020305000440dcfd1ced7848c19f6a57\
bc67fb59ea64ed0de2df64a17ec2a193138874d294fe610f921e155a7da413dc86838d9efbb7dfce4d4f\
5a4864fc902bb98caffdffcd0440b44c6e7a2f86dddd4609598e500bee5c8231788de2cc59cd9bdb9413\
cafd18ef85063b90606d389a606cac825d8e838978c2448b4d659d765b9008efc174597502021001";

const REQUEST_OTHER_ISSUER: &str = "\
30433041303f303d303b300906052b0e03021a05000414fb6196545c5b35a8911845fe023008cd8ab46c\
75041482df9e42ce484680726dca49fa3732f34a7241c802021001";

const SIGNATURE_GOOD: &str = "\
73ae5c0324949d9e1063423d38edea656b000f887f47bca992e1eb016ba03e4f2507e15d8fa7c39b8c7e\
48ce3b028bbea75d1e469794a886cb6842cc4a2b750c1fb244f1bd8d8df43d7ee89a9f9a1373563e9876\
8e4155ad18d22a72822e398791976439377982e531d1850a84277a1fb73a88d7efaf70f9fa9ab7fe3586\
4401296c294aaf954328b52bacddfbfbe40a5f76e9a4a05420e0470c1052e3097cc28eda525272cd5bda\
e35a1f6d78bd4af7997fcd0f2e934c9bbfb5370ae3e612c01f7bea8a4959258278db9b6c0d3ec6ce60e8\
db7bef3a5a243a89e7d9a2e93770b056d2d52091477062588aecf6b32129bb0eb50db524be9aee794995\
0c61d26183a1864956bcf8c6129781409a5385dcb8047c44d3a5fd7aeddad91084474f065b034ba969c5\
c2cca41fbbb8497713a434e26e494385a11f084ecb316cda1440832674dc1dabc1911ff164dc2f09fa4e\
4b7d1832cd431462e3827323fc3f6f397f0b18d132c272de94a06400452b0cb49a3f5d450fe5ee58e483\
0b3466e3ce93";

const RESPONSE_GOOD: &str = "\
3082068a0a0100a08206833082067f06092b0601050507300101048206703082066c3081a2a128302631\
24302206035504030c1b4f70656e206549444153204f43535020526573706f6e6465722031180f323032\
36313130323033303430355a30653063303b300906052b0e03021a05000414fb6196545c5b35a8911845\
fe023008cd8ab46c750414d53734736e3402f4191ffe657bfa149f99683131020210018000180f323032\
36313130313132303030305aa011180f32303236313130383132303030305a300b06092a864886f70d01\
010b038201810073ae5c0324949d9e1063423d38edea656b000f887f47bca992e1eb016ba03e4f2507e1\
5d8fa7c39b8c7e48ce3b028bbea75d1e469794a886cb6842cc4a2b750c1fb244f1bd8d8df43d7ee89a9f\
9a1373563e98768e4155ad18d22a72822e398791976439377982e531d1850a84277a1fb73a88d7efaf70\
f9fa9ab7fe35864401296c294aaf954328b52bacddfbfbe40a5f76e9a4a05420e0470c1052e3097cc28e\
da525272cd5bdae35a1f6d78bd4af7997fcd0f2e934c9bbfb5370ae3e612c01f7bea8a4959258278db9b\
6c0d3ec6ce60e8db7bef3a5a243a89e7d9a2e93770b056d2d52091477062588aecf6b32129bb0eb50db5\
24be9aee7949950c61d26183a1864956bcf8c6129781409a5385dcb8047c44d3a5fd7aeddad91084474f\
065b034ba969c5c2cca41fbbb8497713a434e26e494385a11f084ecb316cda1440832674dc1dabc1911f\
f164dc2f09fa4e4b7d1832cd431462e3827323fc3f6f397f0b18d132c272de94a06400452b0cb49a3f5d\
450fe5ee58e4830b3466e3ce93a08204313082042d3082042930820291a00302010202022000300d0609\
2a864886f70d01010b05003041310b300906035504061302465231183016060355040a0c0f4f70656e20\
654944415320546573743118301606035504030c0f546573742049737375696e67204341301e170d3236\
303130313030303030305a170d3236313230313030303030305a30263124302206035504030c1b4f7065\
6e206549444153204f43535020526573706f6e6465722031308201a2300d06092a864886f70d01010105\
000382018f003082018a0282018100ab746ac189a47a3050ef363709a2e0278617eed8658ac7506c67a5\
34c45a42f7cff979cab050ba70ca351a6c758b5ce6099e3047c1e8b29febd012312ce4d8cbcac9ede57f\
d2195a8f191bb1225d6e12f58afcf16113db8b14a76883499fd4d36061867cbcae2c50e6c722cdd60585\
648f3fac2dd7bc330036b9962c7bef105923a1e2efa2a4c99dbb7769746940ef86328593d64be71965f9\
e63a2f596f4b4c3f34caccc7d8642db55f4353b7480186c37be8656af988c056aba72740dda06e764219\
c09215f6dc5b03648d434124e654895bc6111fbdc6ff0fb5d6701f13301fc5d12d1640bab0886c8d252a\
80cfb9622b5e5e7e88ac869d2b452ee723e3ec524a2b78afde6bcdf6361c6134d3bb3e05cf55b4427b98\
3cb0e73a392b855a8f0303130da55abe2af108f6dee495b8d8eb865fb7eab5394324aed758faa71e017c\
6fb64add71eb006c156c5d8ebeb6370285d99fce6adbee8ea7150ea8dd5ec43a0a525bc9096bbdc9cfec\
ad621c4281f42c0f82ca53d3ddc042d2fd0e2e34630203010001a3463044300c0603551d130101ff0402\
3000300e0603551d0f0101ff04040302078030130603551d25040c300a06082b06010505070309300f06\
092b060105050730010504020500300d06092a864886f70d01010b050003820181005727c79af1391333\
fd3f9b8eab40c15dc697c890b87fecb5fabf97ba5d6eb1d68ba632f04a624a40ed94348db016b8deca6b\
cd778a1ed2fcf3fb5c3435a84f7f2b909e2d1526a3efb9a58000b611ad3b3812164c5d4c38a36fcb02af\
f4fa83ab0345556c3305533485de6f900988ccac4a1c686fc764d14a00483cee10c9bd8795a4e1899591\
05538f070a14a5f7a3811c28d8646e4e79341bd348e100f63ae1ffb4d20b78ae31479f3f28efd345984e\
3cd1867011c50558a7a3a39480b58ce3d54330f737ba104c4888cf79aba278e8cbe9c6d845219a0d6dfe\
4b9b287b745a0e9c08223116a099570bdb3c1f3e57f5ec65ec92afb8d825a396c7ee87dd48d20ab67336\
498453fff5b293fc8fca683bf2a7a7771ad8ca8f6310918c14f28a81980c3abc604ef583bb3ee5f5694b\
99db88b12d2a1113533d13717ce1427fcee2d294ad9b4b8372d08bea7f37401623421a04d9147a373552\
11f0ce3684a2d8433bcfeaa679ad2776244addb1ddac89d5154e1c3113c0cdc6dbe0a7d46ce9eb7e";

const SIGNATURE_REVOKED: &str = "\
3536f2c7a6f36a8e27dbe8f04557c03200d20b2d8c6c313aa582c075b21f22d8c5cef0766bbf7828c276\
e250f5999f115d5c905585063122308dc85f76303a156d9d9f738823aa1fa49dd9b2580ee1e52147c2c9\
ea3489dd6e50b722cea2c49b62578a48079bb021c3cbe49db57884220293f73e664540e0291ddad6c501\
8497eec1c0f919b19637c6d9a89dd934c77f89f0bfe109cf875e7904eecd908e62acf162280684bc5508\
0b54fb1da5bf105918664f09583dd2f8f996aca7ae4211f74fc1d3926e37db955f3878ee2a759fe95ea5\
470bcf6eef8fdf5234a904f05145caf25dee0735dd6a876279bab64b3b8a7caf5c6cd1273ae3d0b934bc\
0f5efda276e2e10bf6b4ec4a39040a5d2253f69f8c28bcff89b3af17ac60a83341cf0df0ddcf9e45eeef\
d77411a74500da97b9cd9564c67685a411ac15742115416031cf94bfee5d6caffde0f66a9f43a5d8b222\
586b10106fb496610b060a75153fffa6549d08449de2a29a0f14347914d8ecb7da7fa833322ea429059f\
dac7555077d9";

const RESPONSE_REVOKED: &str = "\
308206a00a0100a08206993082069506092b060105050730010104820686308206823081b8a128302631\
24302206035504030c1b4f70656e206549444153204f43535020526573706f6e6465722031180f323032\
36313130323033303430355a307b3079303b300906052b0e03021a05000414fb6196545c5b35a8911845\
fe023008cd8ab46c750414d53734736e3402f4191ffe657bfa149f9968313102021000a116180f323032\
36313033303038313533305aa0030a0101180f32303236313130313132303030305aa011180f32303236\
313130383132303030305a300b06092a864886f70d01010b03820181003536f2c7a6f36a8e27dbe8f045\
57c03200d20b2d8c6c313aa582c075b21f22d8c5cef0766bbf7828c276e250f5999f115d5c9055850631\
22308dc85f76303a156d9d9f738823aa1fa49dd9b2580ee1e52147c2c9ea3489dd6e50b722cea2c49b62\
578a48079bb021c3cbe49db57884220293f73e664540e0291ddad6c5018497eec1c0f919b19637c6d9a8\
9dd934c77f89f0bfe109cf875e7904eecd908e62acf162280684bc55080b54fb1da5bf105918664f0958\
3dd2f8f996aca7ae4211f74fc1d3926e37db955f3878ee2a759fe95ea5470bcf6eef8fdf5234a904f051\
45caf25dee0735dd6a876279bab64b3b8a7caf5c6cd1273ae3d0b934bc0f5efda276e2e10bf6b4ec4a39\
040a5d2253f69f8c28bcff89b3af17ac60a83341cf0df0ddcf9e45eeefd77411a74500da97b9cd9564c6\
7685a411ac15742115416031cf94bfee5d6caffde0f66a9f43a5d8b222586b10106fb496610b060a7515\
3fffa6549d08449de2a29a0f14347914d8ecb7da7fa833322ea429059fdac7555077d9a0820431308204\
2d3082042930820291a00302010202022000300d06092a864886f70d01010b05003041310b3009060355\
04061302465231183016060355040a0c0f4f70656e20654944415320546573743118301606035504030c\
0f546573742049737375696e67204341301e170d3236303130313030303030305a170d32363132303130\
30303030305a30263124302206035504030c1b4f70656e206549444153204f43535020526573706f6e64\
65722031308201a2300d06092a864886f70d01010105000382018f003082018a0282018100ab746ac189\
a47a3050ef363709a2e0278617eed8658ac7506c67a534c45a42f7cff979cab050ba70ca351a6c758b5c\
e6099e3047c1e8b29febd012312ce4d8cbcac9ede57fd2195a8f191bb1225d6e12f58afcf16113db8b14\
a76883499fd4d36061867cbcae2c50e6c722cdd60585648f3fac2dd7bc330036b9962c7bef105923a1e2\
efa2a4c99dbb7769746940ef86328593d64be71965f9e63a2f596f4b4c3f34caccc7d8642db55f4353b7\
480186c37be8656af988c056aba72740dda06e764219c09215f6dc5b03648d434124e654895bc6111fbd\
c6ff0fb5d6701f13301fc5d12d1640bab0886c8d252a80cfb9622b5e5e7e88ac869d2b452ee723e3ec52\
4a2b78afde6bcdf6361c6134d3bb3e05cf55b4427b983cb0e73a392b855a8f0303130da55abe2af108f6\
dee495b8d8eb865fb7eab5394324aed758faa71e017c6fb64add71eb006c156c5d8ebeb6370285d99fce\
6adbee8ea7150ea8dd5ec43a0a525bc9096bbdc9cfecad621c4281f42c0f82ca53d3ddc042d2fd0e2e34\
630203010001a3463044300c0603551d130101ff04023000300e0603551d0f0101ff0404030207803013\
0603551d25040c300a06082b06010505070309300f06092b060105050730010504020500300d06092a86\
4886f70d01010b050003820181005727c79af1391333fd3f9b8eab40c15dc697c890b87fecb5fabf97ba\
5d6eb1d68ba632f04a624a40ed94348db016b8deca6bcd778a1ed2fcf3fb5c3435a84f7f2b909e2d1526\
a3efb9a58000b611ad3b3812164c5d4c38a36fcb02aff4fa83ab0345556c3305533485de6f900988ccac\
4a1c686fc764d14a00483cee10c9bd8795a4e189959105538f070a14a5f7a3811c28d8646e4e79341bd3\
48e100f63ae1ffb4d20b78ae31479f3f28efd345984e3cd1867011c50558a7a3a39480b58ce3d54330f7\
37ba104c4888cf79aba278e8cbe9c6d845219a0d6dfe4b9b287b745a0e9c08223116a099570bdb3c1f3e\
57f5ec65ec92afb8d825a396c7ee87dd48d20ab67336498453fff5b293fc8fca683bf2a7a7771ad8ca8f\
6310918c14f28a81980c3abc604ef583bb3ee5f5694b99db88b12d2a1113533d13717ce1427fcee2d294\
ad9b4b8372d08bea7f37401623421a04d9147a37355211f0ce3684a2d8433bcfeaa679ad2776244addb1\
ddac89d5154e1c3113c0cdc6dbe0a7d46ce9eb7e";

const SIGNATURE_UNKNOWN: &str = "\
8f38eb334812b374ec031b93bc195687ab064d2293d66e602d96b4479f4f31627b2d14982a87ecb23ded\
efde877ab558a4f6de06f6cdd47a81c53e1dfde9e3f4d85900e549fdeb1ad2e34d4b171c2870f57a07d2\
ffd9ab0a11bba01ff546a582fe12e4b01f7026c4e7847c3a3e90b51a942379a6dd988cf3872948b91372\
17535fcceef534282010149b2b6fd958f559d3f95cee8e43e7ba1a72d3c783240f55006a9a966e36d537\
4c1a81495d2da1ffd875b370e19a94607a9026b00c1c832221b44d41bb336e5c7b13e530b9e69b3dd44f\
688d1272c47cc4fd5534f1d6ef81e30e299211a4fb32b89dac6aeeb8ab8b8f7993f1299ba650e55f1617\
c7aa97666ef59d30f4400172e8b59b9f981091a0519c26ec4b88dd58ad5e08875b7cf7083bc1ad23f22e\
41244e517d013d43092fd164ed4331a808ec383425ecb24d39983b11255ebdbe31319237037857b6abb5\
73d1e1da2f79d5b4578102700bc7c4d08b8ea7a58fe541150720e52edaf1c42ce5893a63af1c5cbba5fe\
5301adaf6df4";

const RESPONSE_UNKNOWN: &str = "\
3082068b0a0100a08206843082068006092b0601050507300101048206713082066d3081a3a128302631\
24302206035504030c1b4f70656e206549444153204f43535020526573706f6e6465722031180f323032\
36313130323033303430355a30663064303c300906052b0e03021a05000414fb6196545c5b35a8911845\
fe023008cd8ab46c750414d53734736e3402f4191ffe657bfa149f9968313102030099998200180f3230\
3236313130313132303030305aa011180f32303236313130383132303030305a300b06092a864886f70d\
01010b03820181008f38eb334812b374ec031b93bc195687ab064d2293d66e602d96b4479f4f31627b2d\
14982a87ecb23dedefde877ab558a4f6de06f6cdd47a81c53e1dfde9e3f4d85900e549fdeb1ad2e34d4b\
171c2870f57a07d2ffd9ab0a11bba01ff546a582fe12e4b01f7026c4e7847c3a3e90b51a942379a6dd98\
8cf3872948b9137217535fcceef534282010149b2b6fd958f559d3f95cee8e43e7ba1a72d3c783240f55\
006a9a966e36d5374c1a81495d2da1ffd875b370e19a94607a9026b00c1c832221b44d41bb336e5c7b13\
e530b9e69b3dd44f688d1272c47cc4fd5534f1d6ef81e30e299211a4fb32b89dac6aeeb8ab8b8f7993f1\
299ba650e55f1617c7aa97666ef59d30f4400172e8b59b9f981091a0519c26ec4b88dd58ad5e08875b7c\
f7083bc1ad23f22e41244e517d013d43092fd164ed4331a808ec383425ecb24d39983b11255ebdbe3131\
9237037857b6abb573d1e1da2f79d5b4578102700bc7c4d08b8ea7a58fe541150720e52edaf1c42ce589\
3a63af1c5cbba5fe5301adaf6df4a08204313082042d3082042930820291a00302010202022000300d06\
092a864886f70d01010b05003041310b300906035504061302465231183016060355040a0c0f4f70656e\
20654944415320546573743118301606035504030c0f546573742049737375696e67204341301e170d32\
36303130313030303030305a170d3236313230313030303030305a30263124302206035504030c1b4f70\
656e206549444153204f43535020526573706f6e6465722031308201a2300d06092a864886f70d010101\
05000382018f003082018a0282018100ab746ac189a47a3050ef363709a2e0278617eed8658ac7506c67\
a534c45a42f7cff979cab050ba70ca351a6c758b5ce6099e3047c1e8b29febd012312ce4d8cbcac9ede5\
7fd2195a8f191bb1225d6e12f58afcf16113db8b14a76883499fd4d36061867cbcae2c50e6c722cdd605\
85648f3fac2dd7bc330036b9962c7bef105923a1e2efa2a4c99dbb7769746940ef86328593d64be71965\
f9e63a2f596f4b4c3f34caccc7d8642db55f4353b7480186c37be8656af988c056aba72740dda06e7642\
19c09215f6dc5b03648d434124e654895bc6111fbdc6ff0fb5d6701f13301fc5d12d1640bab0886c8d25\
2a80cfb9622b5e5e7e88ac869d2b452ee723e3ec524a2b78afde6bcdf6361c6134d3bb3e05cf55b4427b\
983cb0e73a392b855a8f0303130da55abe2af108f6dee495b8d8eb865fb7eab5394324aed758faa71e01\
7c6fb64add71eb006c156c5d8ebeb6370285d99fce6adbee8ea7150ea8dd5ec43a0a525bc9096bbdc9cf\
ecad621c4281f42c0f82ca53d3ddc042d2fd0e2e34630203010001a3463044300c0603551d130101ff04\
023000300e0603551d0f0101ff04040302078030130603551d25040c300a06082b06010505070309300f\
06092b060105050730010504020500300d06092a864886f70d01010b050003820181005727c79af13913\
33fd3f9b8eab40c15dc697c890b87fecb5fabf97ba5d6eb1d68ba632f04a624a40ed94348db016b8deca\
6bcd778a1ed2fcf3fb5c3435a84f7f2b909e2d1526a3efb9a58000b611ad3b3812164c5d4c38a36fcb02\
aff4fa83ab0345556c3305533485de6f900988ccac4a1c686fc764d14a00483cee10c9bd8795a4e18995\
9105538f070a14a5f7a3811c28d8646e4e79341bd348e100f63ae1ffb4d20b78ae31479f3f28efd34598\
4e3cd1867011c50558a7a3a39480b58ce3d54330f737ba104c4888cf79aba278e8cbe9c6d845219a0d6d\
fe4b9b287b745a0e9c08223116a099570bdb3c1f3e57f5ec65ec92afb8d825a396c7ee87dd48d20ab673\
36498453fff5b293fc8fca683bf2a7a7771ad8ca8f6310918c14f28a81980c3abc604ef583bb3ee5f569\
4b99db88b12d2a1113533d13717ce1427fcee2d294ad9b4b8372d08bea7f37401623421a04d9147a3735\
5211f0ce3684a2d8433bcfeaa679ad2776244addb1ddac89d5154e1c3113c0cdc6dbe0a7d46ce9eb7e";

const SECOND: u128 = 1_000_000_000;

/// 2026-11-02T03:04:05Z.
const PRODUCED_AT: Timestamp = Timestamp { nanos: 1_793_588_645_000_000_000 };

fn bytes(text: &str) -> Vec<u8> {
    hex::decode(text).unwrap()
}

fn certificate(text: &str) -> Certificate {
    Certificate::from_der(&bytes(text)).unwrap()
}

fn options(url: &str) -> Options {
    Options {
        certificate: certificate(RESPONDER),
        issuer: certificate(ISSUER),
        crl_url: url.to_string(),
        crl_refresh: 300 * SECOND,
        max_request_bytes: 16 * 1024,
    }
}

fn reply(status: u16, status_text: &str, body: &str) -> Fetched {
    Fetched::Reply { status, status_text: status_text.to_string(), body: Ok(bytes(body)) }
}

fn responder() -> Responder {
    let mut r = Responder::new(options("http://127.0.0.1/issuer.crl")).unwrap();
    r.refresh(reply(200, "200 OK", CRL), 1000 * SECOND).unwrap();
    r
}

fn at(seconds: u128) -> Moment {
    Moment { ticks: seconds * SECOND, wall: PRODUCED_AT }
}

fn signed(r: &Responder, step: Step, signature: &str) -> Vec<u8> {
    match step {
        Step::Sign { data, digest } => {
            assert_eq!(digest, sha2::Sha256::digest(&data).to_vec());
            r.sign_response(&data, Ok(bytes(signature)))
        }
        other => panic!("{other:?}"),
    }
}

fn refused(step: Step, code: u8) {
    match step {
        Step::Reply { der } => assert_eq!(der, vec![0x30, 3, 0x0a, 1, code]),
        other => panic!("{other:?}"),
    }
}

#[test]
fn reports_good_status_for_a_non_revoked_certificate() {
    let mut r = responder();
    let step = r.handle(&bytes(REQUEST_GOOD), at(1001));
    assert_eq!(signed(&r, step, SIGNATURE_GOOD), bytes(RESPONSE_GOOD));
}

#[test]
fn reports_revoked_status_for_a_revoked_certificate() {
    let mut r = responder();
    let step = r.handle(&bytes(REQUEST_REVOKED), at(1001));
    assert_eq!(signed(&r, step, SIGNATURE_REVOKED), bytes(RESPONSE_REVOKED));
}

#[test]
fn reports_unknown_status_for_a_serial_never_issued() {
    let mut r = responder();
    match r.handle(&bytes(REQUEST_UNKNOWN), at(1001)) {
        Step::Refresh { id, known } => {
            assert_eq!(known.status, CertStatus::Unknown);
            r.refresh(reply(200, "200 OK", CRL), 1001 * SECOND).unwrap();
            let step = r.resume(&id, known, at(1001));
            assert_eq!(signed(&r, step, SIGNATURE_UNKNOWN), bytes(RESPONSE_UNKNOWN));
        }
        other => panic!("{other:?}"),
    }
}

#[test]
fn on_demand_refresh_is_rate_limited() {
    let mut r = Responder::new(options("http://127.0.0.1/issuer.crl")).unwrap();
    let mut fetches = 0;
    r.refresh(reply(200, "200 OK", CRL), 1000 * SECOND).unwrap();
    fetches += 1;
    assert_eq!(fetches, 1);
    for _ in 0..3 {
        if let Step::Refresh { id, known } = r.handle(&bytes(REQUEST_UNKNOWN), at(1000)) {
            fetches += 1;
            r.refresh(reply(200, "200 OK", CRL), 1000 * SECOND).unwrap();
            let step = r.resume(&id, known, at(1000));
            assert!(matches!(step, Step::Sign { .. }));
        }
    }
    assert_eq!(
        fetches, 2,
        "trois requêtes rapprochées ne doivent déclencher qu'un seul rafraîchissement à la volée"
    );
}

#[test]
fn an_unknown_status_triggers_an_on_demand_refresh_that_finds_a_freshly_issued_certificate() {
    let mut r = Responder::new(options("http://127.0.0.1/issuer.crl")).unwrap();
    r.refresh(reply(200, "200 OK", CRL_STALE), 1000 * SECOND).unwrap();
    match r.handle(&bytes(REQUEST_GOOD), at(1001)) {
        Step::Refresh { id, known } => {
            r.refresh(reply(200, "200 OK", CRL), 1001 * SECOND).unwrap();
            let step = r.resume(&id, known, at(1001));
            assert_eq!(signed(&r, step, SIGNATURE_GOOD), bytes(RESPONSE_GOOD));
        }
        other => panic!("{other:?}"),
    }
}

#[test]
fn the_cooldown_ends_after_two_seconds() {
    let mut r = responder();
    assert!(r.try_on_demand_refresh(1000 * SECOND));
    assert!(!r.try_on_demand_refresh(1000 * SECOND + ON_DEMAND_REFRESH_COOLDOWN - 1));
    assert!(r.try_on_demand_refresh(1000 * SECOND + ON_DEMAND_REFRESH_COOLDOWN));
    assert!(!r.try_on_demand_refresh(999 * SECOND));
}

#[test]
fn a_failed_refresh_on_demand_answers_from_what_was_known() {
    let mut r = responder();
    match r.handle(&bytes(REQUEST_UNKNOWN), at(1001)) {
        Step::Refresh { id, known } => {
            let failed = Fetched::Failed { text: "injoignable".to_string() };
            assert!(r.refresh(failed, 1001 * SECOND).is_err());
            let step = r.resume(&id, known, at(1001));
            assert_eq!(signed(&r, step, SIGNATURE_UNKNOWN), bytes(RESPONSE_UNKNOWN));
        }
        other => panic!("{other:?}"),
    }
}

#[test]
fn a_stale_list_is_answered_with_try_later() {
    let mut r = responder();
    assert!(matches!(r.handle(&bytes(REQUEST_GOOD), at(1600)), Step::Sign { .. }));
    refused(r.handle(&bytes(REQUEST_GOOD), at(1601)), 3);
    let mut fresh = Responder::new(options("http://127.0.0.1/issuer.crl")).unwrap();
    refused(fresh.handle(&bytes(REQUEST_GOOD), at(1)), 3);
}

#[test]
fn requests_that_are_none_are_malformed() {
    let mut r = responder();
    refused(r.handle(&[], at(1001)), 1);
    refused(r.handle(&[0x30, 0x00], at(1001)), 1);
    let mut longer = bytes(REQUEST_GOOD);
    longer.push(0);
    refused(r.handle(&longer, at(1001)), 1);
    // An empty list of certificates.
    refused(r.handle(&[0x30, 4, 0x30, 2, 0x30, 0], at(1001)), 1);
    refused(r.handle(&bytes(REQUEST_SHA512), at(1001)), 1);
}

#[test]
fn another_issuer_is_unauthorized() {
    let mut r = responder();
    refused(r.handle(&bytes(REQUEST_OTHER_ISSUER), at(1001)), 6);
}

#[test]
fn both_digest_algorithms_are_answered() {
    let mut r = responder();
    assert!(matches!(r.handle(&bytes(REQUEST_SHA256), at(1001)), Step::Sign { .. }));
    let issuer = certificate(ISSUER);
    let (name, key) = compute_issuer_hashes(&issuer, "2.16.840.1.101.3.4.2.1").unwrap();
    let asked = read_ids_asked(&bytes(REQUEST_SHA256)).unwrap();
    assert_eq!(asked[0].name_hash, name);
    assert_eq!(asked[0].key_hash, key);
    assert_eq!(name, sha2::Sha256::digest(&issuer.subject).to_vec());
    let (name, key) = compute_issuer_hashes(&issuer, "1.3.14.3.2.26").unwrap();
    assert_eq!(name.len(), 20);
    assert_eq!(key.len(), 20);
    assert!(compute_issuer_hashes(&issuer, "1.2.3").is_none());
}

#[test]
fn requests_are_read() {
    let asked = read_ids_asked(&bytes(REQUEST_UNKNOWN)).unwrap();
    assert_eq!(asked.len(), 1);
    assert_eq!(asked[0].algorithm, "1.3.14.3.2.26");
    assert_eq!(asked[0].serial, vec![0x00, 0x99, 0x99]);
    // With a version, a requestor, two entries and extensions.
    let id = asked[0].encoding.clone();
    let wrap = |tag: u8, content: Vec<u8>| {
        assert!(content.len() < 256);
        let mut out = vec![tag];
        if content.len() >= 128 {
            out.push(0x81);
        }
        out.push(content.len() as u8);
        out.extend(content);
        out
    };
    let plain = wrap(0x30, id.clone());
    let extended = wrap(0x30, [id.clone(), vec![0xa0, 2, 0x30, 0]].concat());
    let list = wrap(0x30, [plain, extended].concat());
    let tbs = [vec![0xa0, 3, 2, 1, 0], vec![0xa1, 2, 5, 0], list.clone(), vec![0xa2, 2, 0x30, 0]];
    let whole = wrap(0x30, [wrap(0x30, tbs.concat()), vec![0xa0, 2, 0x30, 0]].concat());
    assert_eq!(read_ids_asked(&whole).unwrap().len(), 2);
    // Another version.
    let tbs = [vec![0xa0, 3, 2, 1, 1], list.clone()].concat();
    assert!(read_ids_asked(&wrap(0x30, wrap(0x30, tbs))).is_none());
    // Something after the list that is no extension.
    let tbs = [list, vec![0xa3, 0]].concat();
    assert!(read_ids_asked(&wrap(0x30, wrap(0x30, tbs))).is_none());
}

#[test]
fn serial_numbers_must_be_written_shortest() {
    let asked = read_ids_asked(&bytes(REQUEST_GOOD)).unwrap();
    assert_eq!(asked[0].serial, vec![0x10, 0x01]);
    // 10 01 becomes 00 01, which is one byte too long.
    let mut padded = bytes(REQUEST_GOOD);
    let n = padded.len();
    assert_eq!(padded[n - 2], 0x10);
    padded[n - 2] = 0;
    assert!(read_ids_asked(&padded).is_none());
    // ff 81 likewise, for a negative number.
    padded[n - 2] = 0xff;
    padded[n - 1] = 0x81;
    assert!(read_ids_asked(&padded).is_none());
}

#[test]
fn lists_that_cannot_be_trusted_are_refused() {
    let mut r = responder();
    let kept = |r: &mut Responder| {
        matches!(r.handle(&bytes(REQUEST_GOOD), at(1001)), Step::Sign { .. })
    };
    let failed = Fetched::Failed { text: "connexion refusée".to_string() };
    let e = r.refresh(failed, 1001 * SECOND).unwrap_err();
    assert_eq!(e.to_string(), "ocspresponder: chargement de la CRL: connexion refusée");
    let e = r.refresh(reply(404, "404 Not Found", CRL), 1001 * SECOND).unwrap_err();
    assert_eq!(e.to_string(), "ocspresponder: la PKI a répondu 404 Not Found");
    let cut = Fetched::Reply {
        status: 200,
        status_text: "200 OK".to_string(),
        body: Err("coupée".to_string()),
    };
    assert!(matches!(r.refresh(cut, 1001 * SECOND), Err(OcspError::Fetch(_))));
    let e = r.refresh(reply(200, "200 OK", "3000"), 1001 * SECOND).unwrap_err();
    assert!(e.to_string().starts_with("ocspresponder: CRL illisible: "), "{}", e.to_string());
    let e = r.refresh(reply(200, "200 OK", CRL_FORGED), 1001 * SECOND).unwrap_err();
    assert!(matches!(e, OcspError::InvalidCrlSignature(_)));
    assert!(e.to_string().starts_with("ocspresponder: signature de la CRL invalide: "));
    let e = r.refresh(reply(200, "200 OK", CRL_PLAIN), 1001 * SECOND).unwrap_err();
    assert_eq!(e.to_string(), "ocspresponder: CRL illisible: operation failed at DER byte 0");
    let e = r.refresh(reply(200, "200 OK", CRL_BROKEN), 1001 * SECOND).unwrap_err();
    assert!(matches!(e, OcspError::Der(_)));
    assert!(kept(&mut r), "la dernière liste lue reste en place");
}

#[test]
fn the_text_of_a_list_without_issued_numbers_is_that_of_the_decoder() {
    let e = der::Error::new(der::ErrorKind::Failed, der::Length::ZERO);
    assert_eq!(e.to_string(), open_eidas::ocsp::NO_ISSUED_SERIALS);
}

#[test]
fn a_responder_needs_the_address_of_the_list() {
    match Responder::new(options("")) {
        Err(e) => {
            assert!(matches!(e, OcspError::MissingCrlUrl));
            assert_eq!(e.to_string(), "ocspresponder: URL de CRL requise");
        }
        Ok(_) => panic!("l'adresse manque"),
    }
    assert_eq!(
        OcspError::MissingMaterial.to_string(),
        "ocspresponder: signataire, certificat et émetteur requis"
    );
    assert_eq!(
        OcspError::Signing("refus".to_string()).to_string(),
        "ocspresponder: signature de la réponse: refus"
    );
}

#[test]
fn a_signature_that_fails_is_an_internal_error() {
    let r = responder();
    let der = r.sign_response(&[0x30, 0], Err("jeton absent".to_string()));
    assert_eq!(der, error_response(OcspResponseStatus::InternalError));
    assert_eq!(der, vec![0x30, 3, 0x0a, 1, 2]);
}

#[test]
fn outcomes_have_their_codes() {
    let codes = [
        (OcspResponseStatus::Successful, 0),
        (OcspResponseStatus::MalformedRequest, 1),
        (OcspResponseStatus::InternalError, 2),
        (OcspResponseStatus::TryLater, 3),
        (OcspResponseStatus::SigRequired, 5),
        (OcspResponseStatus::Unauthorized, 6),
    ];
    for (status, code) in codes {
        assert_eq!(error_response(status), vec![0x30, 3, 0x0a, 1, code]);
    }
}

#[test]
fn dates_that_cannot_be_given_are_an_internal_error() {
    let before = Timestamp { nanos: -1 };
    assert!(encode_time(before).is_none());
    let mut r = responder();
    let step = r.handle(
        &bytes(REQUEST_GOOD),
        Moment { ticks: 1001 * SECOND, wall: before },
    );
    refused(step, 2);
    let u = Update {
        status: CertStatus::Revoked { at: before, reason: None },
        this_update: PRODUCED_AT,
        next_update: PRODUCED_AT,
    };
    assert!(encode_response_data(&[], &[], u, PRODUCED_AT).is_none());
}

#[test]
fn points_in_time_are_encoded_to_the_second() {
    let text = |nanos: i128| {
        encode_time(Timestamp { nanos }).map(|b| {
            assert_eq!(&b[..2], &[0x18, 15]);
            String::from_utf8(b[2..].to_vec()).unwrap()
        })
    };
    assert_eq!(text(0).unwrap(), "19700101000000Z");
    assert_eq!(text(951_782_400_000_000_000).unwrap(), "20000229000000Z");
    assert_eq!(text(951_868_799_999_999_999).unwrap(), "20000229235959Z");
    assert_eq!(text(4_107_542_400_000_000_000).unwrap(), "21000301000000Z");
    assert_eq!(text(1_793_588_645_000_000_000).unwrap(), "20261102030405Z");
    assert_eq!(text(253_402_300_799_999_999_999).unwrap(), "99991231235959Z");
    assert_eq!(text(253_402_300_800_000_000_000), None);
}

#[test]
fn the_last_entry_for_a_number_counts() {
    let entry = |seconds: u64, reason: Option<Vec<u8>>| RevokedEntry {
        serial: vec![5],
        revoked_at: seconds,
        extensions: match reason {
            Some(value) => vec![Extension { oid: vec![0x55, 0x1d, 0x15], critical: false, value }],
            None => vec![],
        },
    };
    let list = vec![entry(10, Some(vec![0x0a, 1, 1])), entry(20, Some(vec![0x0a, 1, 4]))];
    let mut r = responder();
    r.snapshot = open_eidas::ocsp::build_snapshot(&list, &vec![vec![5]], 30, None, 0);
    let u = r.lookup(&[5], 0).unwrap();
    assert_eq!(
        u.status,
        CertStatus::Revoked { at: Timestamp { nanos: 20_000_000_000 }, reason: Some(4) }
    );
    assert_eq!(u.this_update, Timestamp { nanos: 30_000_000_000 });
    assert_eq!(u.next_update, Timestamp { nanos: 0 });
    assert_eq!(r.lookup(&[6], 0).unwrap().status, CertStatus::Unknown);
    // A code that is none, and no code at all.
    for reason in [Some(vec![0x0a, 1, 7]), Some(vec![5, 0]), None] {
        r.snapshot = open_eidas::ocsp::build_snapshot(&vec![entry(1, reason)], &vec![], 0, None, 0);
        assert_eq!(
            r.lookup(&[5], 0).unwrap().status,
            CertStatus::Revoked { at: Timestamp { nanos: 1_000_000_000 }, reason: None }
        );
    }
}

#[test]
fn published_serials_are_those_of_the_list() {
    let e = crl_issued_serials(&vec![vec![0x10, 0x00], vec![0x10, 0x01]]).unwrap();
    assert_eq!(e.value, bytes("30080202100002021001"));
    let s = read_snapshot(&bytes(CRL), &certificate(ISSUER), 0).unwrap();
    let mut r = responder();
    r.snapshot = s;
    assert_eq!(r.lookup(&[0x10, 0x01], 0).unwrap().status, CertStatus::Good);
}

#[test]
fn the_list_is_found_under_the_name_of_the_issuer() {
    assert_eq!(
        crl_url("https://pki.internal//", "test-issuing-ca"),
        "https://pki.internal/download/test-issuing-ca.crl"
    );
    assert_eq!(issuer_common_name(&certificate(ISSUER)), "Test Issuing CA");
}
