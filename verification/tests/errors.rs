use vault_crypto::{
    Account, CryptoError, MasterPasswordData, OtpHashAlgorithm,
};

#[test]
fn error_messages() {
    assert_eq!(CryptoError::EncryptionFailed.message(), "Encryption failed");
    assert_eq!(CryptoError::DecryptionFailed.message(), "Decryption failed");
    assert_eq!(CryptoError::InvalidKey.message(), "Invalid key");
    assert_eq!(CryptoError::InvalidData.message(), "Invalid data");
    assert_eq!(CryptoError::InvalidParameter.message(), "Invalid parameter");
    assert_eq!(CryptoError::UnsupportedVersion.message(), "Unsupported backup version");
    assert_eq!(CryptoError::TotpFailed.message(), "TOTP generation failed");
    assert_eq!(CryptoError::SerializationError.message(), "Serialization failed");
}

#[test]
fn errors_compare_by_variant() {
    assert_eq!(CryptoError::InvalidData, CryptoError::InvalidData);
    assert_ne!(CryptoError::InvalidData, CryptoError::InvalidParameter);
    let copy = CryptoError::TotpFailed;
    assert_eq!(format!("{:?}", copy), "TotpFailed");
}

#[test]
fn records_hold_their_fields() {
    let account = Account {
        id: 7,
        name: "Mail".to_string(),
        username: "me@example.org".to_string(),
        password: "secret".to_string(),
        icon_initial: "M".to_string(),
        secret_key: "JBSWY3DPEHPK3PXP".to_string(),
        algorithm: OtpHashAlgorithm::Sha256,
        has_otp: true,
    };
    assert_eq!(account.id, 7);
    assert_eq!(account.algorithm, OtpHashAlgorithm::Sha256);
    assert!(account.has_otp);
    let data = MasterPasswordData { hash: "00".to_string(), salt: "ff".to_string() };
    assert_eq!(data.hash, "00");
    assert_eq!(data.salt, "ff");
}
