//! The service configuration: a plain record of the settings the engine
//! and its collaborators read at startup. The process environment is read
//! at the edge; this module only assembles and checks the values.

use vstd::prelude::*;

use crate::errors::ServiceError;

verus! {

/// The configuration record.
#[allow(non_snake_case)]
pub struct Config {
    pub PORT: String,
    pub DB_URL: String,
    pub ACCESS_SECRET_KEY: String,
    pub AWS_BUCKET_NAME: String,
    pub AWS_ACCESS_KEY_ID: String,
    pub AWS_SECRET_ACCESS_KEY: String,
    pub AWS_BUCKET_REGION: String,
    pub RPC_URL: String,
    pub FEE_FAUCET_SECRET: String,
    pub FEE_FAUCET_PRIVATE_KEY: String,
    pub GOOGLE_OAUTH_CLIENT_ID: String,
    pub GOOGLE_OAUTH_CLIENT_SECRET: String,
    pub PRIVY_APP_ID: String,
    pub PRIVY_APP_SECRET: String,
}

/// The environment values as read, each absent or present.
pub struct EnvValues {
    pub port: Option<String>,
    pub db_url: Option<String>,
    pub access_secret_key: Option<String>,
    pub aws_bucket_name: Option<String>,
    pub aws_access_key_id: Option<String>,
    pub aws_secret_access_key: Option<String>,
    pub aws_bucket_region: Option<String>,
    pub rpc_url: Option<String>,
    pub fee_faucet_secret: Option<String>,
    pub fee_faucet_private_key: Option<String>,
    pub google_oauth_client_id: Option<String>,
    pub google_oauth_client_secret: Option<String>,
    pub privy_app_id: Option<String>,
    pub privy_app_secret: Option<String>,
}

impl EnvValues {
    /// Every required value is present.
    pub open spec fn complete(&self) -> bool {
        &&& self.port is Some
        &&& self.db_url is Some
        &&& self.access_secret_key is Some
        &&& self.aws_bucket_name is Some
        &&& self.aws_access_key_id is Some
        &&& self.aws_secret_access_key is Some
        &&& self.aws_bucket_region is Some
        &&& self.rpc_url is Some
        &&& self.fee_faucet_secret is Some
        &&& self.fee_faucet_private_key is Some
        &&& self.google_oauth_client_id is Some
        &&& self.google_oauth_client_secret is Some
        &&& self.privy_app_id is Some
        &&& self.privy_app_secret is Some
    }
}

impl Config {
    /// Assembles the configuration from the values the environment
    /// yielded: every field carries its variable's value verbatim, and
    /// the first missing variable, in field order, names the error.
    pub fn load_env(values: EnvValues) -> (r: Result<Config, ServiceError>)
        ensures
            r is Ok <==> values.complete(),
            r matches Ok(c) ==> c.PORT@ == values.port.unwrap()@ && c.DB_URL@ == values.db_url.unwrap()@ && c.ACCESS_SECRET_KEY@ == values.access_secret_key.unwrap()@ && c.AWS_BUCKET_NAME@ == values.aws_bucket_name.unwrap()@ && c.AWS_ACCESS_KEY_ID@ == values.aws_access_key_id.unwrap()@ && c.AWS_SECRET_ACCESS_KEY@ == values.aws_secret_access_key.unwrap()@ && c.AWS_BUCKET_REGION@ == values.aws_bucket_region.unwrap()@ && c.RPC_URL@ == values.rpc_url.unwrap()@ && c.FEE_FAUCET_SECRET@ == values.fee_faucet_secret.unwrap()@ && c.FEE_FAUCET_PRIVATE_KEY@ == values.fee_faucet_private_key.unwrap()@ && c.GOOGLE_OAUTH_CLIENT_ID@ == values.google_oauth_client_id.unwrap()@ && c.GOOGLE_OAUTH_CLIENT_SECRET@ == values.google_oauth_client_secret.unwrap()@ && c.PRIVY_APP_ID@ == values.privy_app_id.unwrap()@ && c.PRIVY_APP_SECRET@ == values.privy_app_secret.unwrap()@,
            values.port is None ==> (r matches Err(ServiceError::EnvMissing(n)) && n@ == "PORT"@),
            values.port is Some && values.db_url is None ==> (r matches Err(ServiceError::EnvMissing(n)) && n@ == "SERVICE_DB_URL"@),
            values.port is Some && values.db_url is Some && values.access_secret_key is None ==> (r matches Err(ServiceError::EnvMissing(n)) && n@ == "SERVICE_ACCESS_SECRET_KEY"@),
            values.port is Some && values.db_url is Some && values.access_secret_key is Some && values.aws_bucket_name is None ==> (r matches Err(ServiceError::EnvMissing(n)) && n@ == "SERVICE_AWS_BUCKET_NAME"@),
            values.port is Some && values.db_url is Some && values.access_secret_key is Some && values.aws_bucket_name is Some && values.aws_access_key_id is None ==> (r matches Err(ServiceError::EnvMissing(n)) && n@ == "SERVICE_AWS_ACCESS_KEY_ID"@),
            values.port is Some && values.db_url is Some && values.access_secret_key is Some && values.aws_bucket_name is Some && values.aws_access_key_id is Some && values.aws_secret_access_key is None ==> (r matches Err(ServiceError::EnvMissing(n)) && n@ == "SERVICE_AWS_SECRET_ACCESS_KEY"@),
            values.port is Some && values.db_url is Some && values.access_secret_key is Some && values.aws_bucket_name is Some && values.aws_access_key_id is Some && values.aws_secret_access_key is Some && values.aws_bucket_region is None ==> (r matches Err(ServiceError::EnvMissing(n)) && n@ == "SERVICE_AWS_BUCKET_REGION"@),
            values.port is Some && values.db_url is Some && values.access_secret_key is Some && values.aws_bucket_name is Some && values.aws_access_key_id is Some && values.aws_secret_access_key is Some && values.aws_bucket_region is Some && values.rpc_url is None ==> (r matches Err(ServiceError::EnvMissing(n)) && n@ == "SERVICE_RPC_URL"@),
            values.port is Some && values.db_url is Some && values.access_secret_key is Some && values.aws_bucket_name is Some && values.aws_access_key_id is Some && values.aws_secret_access_key is Some && values.aws_bucket_region is Some && values.rpc_url is Some && values.fee_faucet_secret is None ==> (r matches Err(ServiceError::EnvMissing(n)) && n@ == "SERVICE_FEE_FAUCET_SECRET"@),
            values.port is Some && values.db_url is Some && values.access_secret_key is Some && values.aws_bucket_name is Some && values.aws_access_key_id is Some && values.aws_secret_access_key is Some && values.aws_bucket_region is Some && values.rpc_url is Some && values.fee_faucet_secret is Some && values.fee_faucet_private_key is None ==> (r matches Err(ServiceError::EnvMissing(n)) && n@ == "SERVICE_FEE_FAUCET_PRIVATE_KEY"@),
            values.port is Some && values.db_url is Some && values.access_secret_key is Some && values.aws_bucket_name is Some && values.aws_access_key_id is Some && values.aws_secret_access_key is Some && values.aws_bucket_region is Some && values.rpc_url is Some && values.fee_faucet_secret is Some && values.fee_faucet_private_key is Some && values.google_oauth_client_id is None ==> (r matches Err(ServiceError::EnvMissing(n)) && n@ == "SERVICE_GOOGLE_CLIENT_ID"@),
            values.port is Some && values.db_url is Some && values.access_secret_key is Some && values.aws_bucket_name is Some && values.aws_access_key_id is Some && values.aws_secret_access_key is Some && values.aws_bucket_region is Some && values.rpc_url is Some && values.fee_faucet_secret is Some && values.fee_faucet_private_key is Some && values.google_oauth_client_id is Some && values.google_oauth_client_secret is None ==> (r matches Err(ServiceError::EnvMissing(n)) && n@ == "SERVICE_GOOGLE_CLIENT_SECRET"@),
            values.port is Some && values.db_url is Some && values.access_secret_key is Some && values.aws_bucket_name is Some && values.aws_access_key_id is Some && values.aws_secret_access_key is Some && values.aws_bucket_region is Some && values.rpc_url is Some && values.fee_faucet_secret is Some && values.fee_faucet_private_key is Some && values.google_oauth_client_id is Some && values.google_oauth_client_secret is Some && values.privy_app_id is None ==> (r matches Err(ServiceError::EnvMissing(n)) && n@ == "SERVICE_PRIVY_APP_ID"@),
            values.port is Some && values.db_url is Some && values.access_secret_key is Some && values.aws_bucket_name is Some && values.aws_access_key_id is Some && values.aws_secret_access_key is Some && values.aws_bucket_region is Some && values.rpc_url is Some && values.fee_faucet_secret is Some && values.fee_faucet_private_key is Some && values.google_oauth_client_id is Some && values.google_oauth_client_secret is Some && values.privy_app_id is Some && values.privy_app_secret is None ==> (r matches Err(ServiceError::EnvMissing(n)) && n@ == "SERVICE_PRIVY_APP_SECRET"@),
    {
        let EnvValues {
            port,
            db_url,
            access_secret_key,
            aws_bucket_name,
            aws_access_key_id,
            aws_secret_access_key,
            aws_bucket_region,
            rpc_url,
            fee_faucet_secret,
            fee_faucet_private_key,
            google_oauth_client_id,
            google_oauth_client_secret,
            privy_app_id,
            privy_app_secret,
        } = values;
        let config = Config {
            PORT: match port {
                Some(v) => v,
                None => {
                    return Err(ServiceError::EnvMissing("PORT"));
                },
            },
            DB_URL: match db_url {
                Some(v) => v,
                None => {
                    return Err(ServiceError::EnvMissing("SERVICE_DB_URL"));
                },
            },
            ACCESS_SECRET_KEY: match access_secret_key {
                Some(v) => v,
                None => {
                    return Err(ServiceError::EnvMissing("SERVICE_ACCESS_SECRET_KEY"));
                },
            },
            AWS_BUCKET_NAME: match aws_bucket_name {
                Some(v) => v,
                None => {
                    return Err(ServiceError::EnvMissing("SERVICE_AWS_BUCKET_NAME"));
                },
            },
            AWS_ACCESS_KEY_ID: match aws_access_key_id {
                Some(v) => v,
                None => {
                    return Err(ServiceError::EnvMissing("SERVICE_AWS_ACCESS_KEY_ID"));
                },
            },
            AWS_SECRET_ACCESS_KEY: match aws_secret_access_key {
                Some(v) => v,
                None => {
                    return Err(ServiceError::EnvMissing("SERVICE_AWS_SECRET_ACCESS_KEY"));
                },
            },
            AWS_BUCKET_REGION: match aws_bucket_region {
                Some(v) => v,
                None => {
                    return Err(ServiceError::EnvMissing("SERVICE_AWS_BUCKET_REGION"));
                },
            },
            RPC_URL: match rpc_url {
                Some(v) => v,
                None => {
                    return Err(ServiceError::EnvMissing("SERVICE_RPC_URL"));
                },
            },
            FEE_FAUCET_SECRET: match fee_faucet_secret {
                Some(v) => v,
                None => {
                    return Err(ServiceError::EnvMissing("SERVICE_FEE_FAUCET_SECRET"));
                },
            },
            FEE_FAUCET_PRIVATE_KEY: match fee_faucet_private_key {
                Some(v) => v,
                None => {
                    return Err(ServiceError::EnvMissing("SERVICE_FEE_FAUCET_PRIVATE_KEY"));
                },
            },
            GOOGLE_OAUTH_CLIENT_ID: match google_oauth_client_id {
                Some(v) => v,
                None => {
                    return Err(ServiceError::EnvMissing("SERVICE_GOOGLE_CLIENT_ID"));
                },
            },
            GOOGLE_OAUTH_CLIENT_SECRET: match google_oauth_client_secret {
                Some(v) => v,
                None => {
                    return Err(ServiceError::EnvMissing("SERVICE_GOOGLE_CLIENT_SECRET"));
                },
            },
            PRIVY_APP_ID: match privy_app_id {
                Some(v) => v,
                None => {
                    return Err(ServiceError::EnvMissing("SERVICE_PRIVY_APP_ID"));
                },
            },
            PRIVY_APP_SECRET: match privy_app_secret {
                Some(v) => v,
                None => {
                    return Err(ServiceError::EnvMissing("SERVICE_PRIVY_APP_SECRET"));
                },
            },
        };
        Ok(config)
    }
}

/// The public object-storage URL for a stored key, under the bucket.
pub fn get_public_url(bucket: &str, key: &String) -> (r: String)
    ensures
        r@ == "https://"@ + bucket@ + ".s3.amazonaws.com/"@ + key@,
{
    let mut url = String::from_str("https://");
    url.append(bucket);
    url.append(".s3.amazonaws.com/");
    url.append(key.as_str());
    url
}

} // verus!
